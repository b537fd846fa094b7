use vstd::prelude::*;

use crate::marsey::PatchEntry;
use crate::text::push_char;

verus! {

/// One patch as the patches tab shows it.
#[derive(Debug)]
pub struct PatchRow {
    pub filename: String,
    pub enabled: bool,
    pub name: String,
    pub description: String,
    pub rdnn: String,
}

/// What the patches tab displays: the scanned patches, or the error that
/// kept them from loading.
#[derive(Debug)]
pub struct PatchesState {
    pub mods_dir: Option<String>,
    pub patches: Vec<PatchRow>,
    pub error: Option<String>,
}

impl PatchesState {
    /// Turns one patch scan into display state: a failed scan keeps only its
    /// error; a successful one keeps the patches directory and one row per
    /// entry, in order.
    pub fn refresh(scan: Result<(String, Vec<PatchEntry>), String>) -> (r: PatchesState)
        ensures
            scan matches Err(e) ==> r.mods_dir is None && r.patches@.len() == 0 && (
            r.error matches Some(msg) && msg@ == e@),
            scan matches Ok((dir, entries)) ==> {
                &&& r.error is None
                &&& (r.mods_dir matches Some(d) && d@ == dir@)
                &&& r.patches@.len() == entries@.len()
                &&& forall|i: int|
                    0 <= i < entries@.len() ==> {
                        let row = #[trigger] r.patches@[i];
                        let e = entries@[i];
                        row.filename@ == e.filename@ && row.enabled == e.enabled && row.name@
                            == e.name@ && row.description@ == e.description@ && row.rdnn@
                            == e.rdnn@
                    }
            },
    {
        match scan {
            Err(e) => PatchesState { mods_dir: None, patches: Vec::new(), error: Some(e) },
            Ok((dir, entries)) => {
                let n = entries.len();
                let mut rows: Vec<PatchRow> = Vec::new();
                let mut i: usize = 0;
                while i < n
                    invariant
                        0 <= i <= n,
                        n == entries@.len(),
                        rows@.len() == i,
                        forall|k: int|
                            0 <= k < i ==> {
                                let row = #[trigger] rows@[k];
                                let e = entries@[k];
                                row.filename@ == e.filename@ && row.enabled == e.enabled
                                    && row.name@ == e.name@ && row.description@
                                    == e.description@ && row.rdnn@ == e.rdnn@
                            },
                    decreases n - i,
                {
                    let e = &entries[i];
                    rows.push(
                        PatchRow {
                            filename: e.filename.clone(),
                            enabled: e.enabled,
                            name: e.name.clone(),
                            description: e.description.clone(),
                            rdnn: e.rdnn.clone(),
                        },
                    );
                    i += 1;
                }
                PatchesState { mods_dir: Some(dir), patches: rows, error: None }
            },
        }
    }
}

/// Cuts a string to at most `max_chars` characters, marking the cut with an
/// ellipsis.
pub fn truncate_ellipsis(input: &str, max_chars: usize) -> (r: String)
    ensures
        input@.len() <= max_chars ==> r@ == input@,
        input@.len() > max_chars ==> r@ == input@.take(max_chars as int) + "..."@,
{
    let n = input.unicode_len();
    if n <= max_chars {
        return input.to_owned();
    }
    let mut out = String::new();
    let mut i: usize = 0;
    while i < max_chars
        invariant
            0 <= i <= max_chars < n,
            n == input@.len(),
            out@ == input@.subrange(0, i as int),
        decreases max_chars - i,
    {
        push_char(&mut out, input.get_char(i));
        assert(input@.subrange(0, i + 1 as int) =~= input@.subrange(0, i as int).push(
            input@[i as int],
        ));
        i += 1;
    }
    out.append("...");
    proof {
        assert(input@.subrange(0, max_chars as int) =~= input@.take(max_chars as int));
    }
    out
}

} // verus!
