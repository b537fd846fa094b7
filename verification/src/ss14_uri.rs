use vstd::prelude::*;

use crate::errors::AcquireError;
use crate::resolver::str_eq;
use crate::text::push_char;

verus! {

/// The default port of the plain `ss14://` scheme.
pub const DEFAULT_SS14_PORT: u16 = 1212;

/// The decimal digit character of a value below ten.
pub open spec fn dec_digit(n: int) -> char
    recommends
        0 <= n < 10,
{
    (('0' as u8) + n as u8) as char
}

/// The decimal form of a number, most significant digit first.
pub open spec fn spec_dec(n: int) -> Seq<char>
    decreases n,
{
    if n < 10 {
        seq![dec_digit(n)]
    } else {
        spec_dec(n / 10) + seq![dec_digit(n % 10)]
    }
}

/// Appends the decimal form of `n`.
pub fn push_dec_u16(out: &mut String, n: u16)
    ensures
        final(out)@ == old(out)@ + spec_dec(n as int),
    decreases n,
{
    if n < 10 {
        push_char(out, (('0' as u8) + (n as u8)) as char);
    } else {
        push_dec_u16(out, n / 10);
        push_char(out, (('0' as u8) + ((n % 10) as u8)) as char);
        proof {
            assert(out@ =~= old(out)@ + spec_dec(n as int));
        }
    }
}

/// `path` with a trailing slash guaranteed.
pub open spec fn spec_dir_path(path: Seq<char>) -> Seq<char> {
    if path.len() > 0 && path.last() == '/' {
        path
    } else {
        path + seq!['/']
    }
}

/// The HTTP(S) API base a server address stands for. `ss14` maps to `http`
/// with the default game port when none is given; `ss14s` maps to `https`
/// leaving a missing port to the protocol; any other scheme is rejected. The
/// path always ends in a slash, so endpoint names append directly.
pub open spec fn spec_api_base(
    scheme: Seq<char>,
    host: Seq<char>,
    port: Option<u16>,
    path: Seq<char>,
) -> Option<Seq<char>> {
    if scheme == "ss14"@ {
        let p = if port is Some {
            port->0 as int
        } else {
            DEFAULT_SS14_PORT as int
        };
        Some("http://"@ + host + seq![':'] + spec_dec(p) + spec_dir_path(path))
    } else if scheme == "ss14s"@ {
        let authority = if port is Some {
            host + seq![':'] + spec_dec(port->0 as int)
        } else {
            host
        };
        Some("https://"@ + authority + spec_dir_path(path))
    } else {
        None
    }
}

/// Builds the API base, as `spec_api_base` says; the caller parses the
/// address into its scheme, host, port and path beforehand.
pub fn server_api_base(scheme: &str, host: &str, port: Option<u16>, path: &str) -> (r: Result<
    String,
    AcquireError,
>)
    ensures
        r is Ok <==> spec_api_base(scheme@, host@, port, path@) is Some,
        r matches Ok(base) ==> base@ == spec_api_base(scheme@, host@, port, path@)->0,
        r is Err ==> r->Err_0 is Protocol,
{
    let is_plain = str_eq(scheme, "ss14");
    let is_tls = str_eq(scheme, "ss14s");
    if !is_plain && !is_tls {
        return Err(
            AcquireError::Protocol {
                detail: "only ss14:// and ss14s:// are supported".to_owned(),
            },
        );
    }
    let mut base = String::new();
    if is_plain {
        base.append("http://");
        base.append(host);
        push_char(&mut base, ':');
        match port {
            Some(p) => push_dec_u16(&mut base, p),
            None => push_dec_u16(&mut base, DEFAULT_SS14_PORT),
        }
    } else {
        base.append("https://");
        base.append(host);
        if let Some(p) = port {
            push_char(&mut base, ':');
            push_dec_u16(&mut base, p);
        }
    }
    base.append(path);
    let needs_slash = {
        let n = path.unicode_len();
        n == 0 || path.get_char(n - 1) != '/'
    };
    if needs_slash {
        push_char(&mut base, '/');
    }
    proof {
        assert(base@ =~= spec_api_base(scheme@, host@, port, path@)->0);
    }
    Ok(base)
}

/// The server's `info` endpoint under its API base.
pub fn server_info_url(api_base: &str) -> (r: String)
    ensures
        r@ == api_base@ + "info"@,
{
    let mut out = api_base.to_owned();
    out.append("info");
    out
}

/// The server's `status` endpoint under its API base.
pub fn server_status_url(api_base: &str) -> (r: String)
    ensures
        r@ == api_base@ + "status"@,
{
    let mut out = api_base.to_owned();
    out.append("status");
    out
}

/// The self-hosted content zip under the server's API base.
pub fn server_selfhosted_client_zip_url(api_base: &str) -> (r: String)
    ensures
        r@ == api_base@ + "client.zip"@,
{
    let mut out = api_base.to_owned();
    out.append("client.zip");
    out
}

} // verus!
