use vstd::prelude::*;

use crate::resolver::str_eq;
use crate::text::spec_trim;
use crate::text::trim_ascii;

verus! {

/// Whether the favourite set holds the address.
pub open spec fn favs_contains(set: Seq<Seq<char>>, addr: Seq<char>) -> bool {
    exists|i: int| 0 <= i < set.len() && set[i] == addr
}

/// The mathematical content of a stored favourite list.
pub open spec fn favs_model(set: Seq<String>) -> Seq<Seq<char>> {
    set.map_values(|s: String| s@)
}

/// No address is stored twice.
pub open spec fn favs_unique(set: Seq<Seq<char>>) -> bool {
    forall|i: int, j: int| 0 <= i < j < set.len() ==> set[i] != set[j]
}

/// The stored form of a favourite address: the exact address the server list
/// gave, with surrounding whitespace removed.
pub fn canonicalize_favorite_address(address: &str) -> (r: String)
    ensures
        r@ == spec_trim(address@),
{
    trim_ascii(address)
}

fn find_favorite(set: &Vec<String>, canon: &str) -> (r: Option<usize>)
    ensures
        r is Some <==> favs_contains(set@.map_values(|s: String| s@), canon@),
        r matches Some(i) ==> i < set@.len() && set@[i as int]@ == canon@,
{
    let ghost m = set@.map_values(|s: String| s@);
    let n = set.len();
    let mut i: usize = 0;
    while i < n
        invariant
            0 <= i <= n,
            n == set@.len(),
            m == set@.map_values(|s: String| s@),
            forall|t: int| 0 <= t < i ==> #[trigger] m[t] != canon@,
        decreases n - i,
    {
        if str_eq(set[i].as_str(), canon) {
            assert(m[i as int] == canon@);
            return Some(i);
        }
        i += 1;
    }
    None
}

/// Whether this address (canonicalized) is a favourite.
pub fn is_favorite(set: &Vec<String>, address: &str) -> (r: bool)
    ensures
        r == favs_contains(set@.map_values(|s: String| s@), spec_trim(address@)),
{
    let canon = canonicalize_favorite_address(address);
    match find_favorite(set, canon.as_str()) {
        Some(_) => true,
        None => false,
    }
}

/// Adds the address to the favourites when absent, removes it when present.
pub fn toggle_favorite(set: &mut Vec<String>, address: &str)
    requires
        favs_unique(favs_model(old(set)@)),
    ensures
        favs_unique(favs_model(final(set)@)),
        favs_contains(favs_model(final(set)@), spec_trim(address@)) == !favs_contains(
            favs_model(old(set)@),
            spec_trim(address@),
        ),
        forall|x: Seq<char>|
            x != spec_trim(address@) ==> #[trigger] favs_contains(favs_model(final(set)@), x)
                == favs_contains(favs_model(old(set)@), x),
{
    let ghost m0 = set@.map_values(|s: String| s@);
    let canon = canonicalize_favorite_address(address);
    match find_favorite(set, canon.as_str()) {
        Some(i) => {
            set.remove(i);
            proof {
                let m1 = set@.map_values(|s: String| s@);
                assert(m1 =~= m0.remove(i as int));
                assert forall|x: Seq<char>| #[trigger]
                    favs_contains(m1, x) == (favs_contains(m0, x) && x != canon@) by {
                    if favs_contains(m1, x) {
                        let w = choose|w: int| 0 <= w < m1.len() && m1[w] == x;
                        if w < i {
                            assert(m0[w] == x);
                        } else {
                            assert(m0[w + 1] == x);
                        }
                        if x == canon@ {
                            if w < i {
                                assert(m0[w] == m0[i as int]);
                            } else {
                                assert(m0[w + 1] == m0[i as int]);
                            }
                        }
                    }
                    if favs_contains(m0, x) && x != canon@ {
                        let w = choose|w: int| 0 <= w < m0.len() && m0[w] == x;
                        assert(w != i);
                        if w < i {
                            assert(m1[w] == x);
                        } else {
                            assert(m1[w - 1] == x);
                        }
                    }
                }
            }
        },
        None => {
            set.push(canon);
            proof {
                let m1 = set@.map_values(|s: String| s@);
                assert(m1 =~= m0.push(canon@));
                assert(m1[m0.len() as int] == canon@);
                assert forall|x: Seq<char>| x != canon@ implies #[trigger] favs_contains(m1, x)
                    == favs_contains(m0, x) by {
                    if favs_contains(m1, x) {
                        let w = choose|w: int| 0 <= w < m1.len() && m1[w] == x;
                        assert(w < m0.len());
                        assert(m0[w] == x);
                    }
                    if favs_contains(m0, x) {
                        let w = choose|w: int| 0 <= w < m0.len() && m0[w] == x;
                        assert(m1[w] == x);
                    }
                }
            }
        },
    }
}

} // verus!
