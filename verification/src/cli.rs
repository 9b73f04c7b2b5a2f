//! Verified pieces of the command line front end: the default configuration
//! path and the parser of `KEY=VAL,KEY2=VAL2` label lists.

use vstd::prelude::*;

verus! {

/// Where the configuration file is looked for when no path is given.
pub fn default_config_path() -> (r: String)
    ensures
        r@ == "/etc/lading/lading.yaml"@,
{
    let path = "/etc/lading/lading.yaml";
    path.to_owned()
}

/// Index of the first occurrence of `b` in `s`, or `s.len()` when there is
/// none.
pub open spec fn first_index(s: Seq<u8>, b: u8) -> int
    decreases s.len(),
{
    if s.len() == 0 {
        0
    } else if s[0] == b {
        0
    } else {
        1 + first_index(s.drop_first(), b)
    }
}

/// What [`first_index`] finds: an in-range index holding `b` with nothing
/// equal to `b` before it, or the length when `b` does not occur.
pub proof fn lemma_first_index(s: Seq<u8>, b: u8)
    ensures
        0 <= first_index(s, b) <= s.len(),
        first_index(s, b) < s.len() ==> s[first_index(s, b)] == b,
        forall|j: int| 0 <= j < first_index(s, b) ==> s[j] != b,
    decreases s.len(),
{
    if s.len() != 0 && s[0] != b {
        lemma_first_index(s.drop_first(), b);
        assert forall|j: int| 0 <= j < first_index(s, b) implies s[j] != b by {
            if j > 0 {
                assert(s.drop_first()[j - 1] != b);
            }
        }
    }
}

/// Position of the first occurrence of `b` in `s`, or the length of `s` when
/// `b` does not occur.
pub fn find_byte(s: &[u8], b: u8) -> (i: usize)
    ensures
        i == first_index(s@, b),
{
    proof {
        lemma_first_index(s@, b);
    }
    let mut k: usize = 0;
    while k < s.len()
        invariant
            k <= s@.len(),
            forall|j: int| 0 <= j < k ==> s@[j] != b,
            0 <= first_index(s@, b) <= s@.len(),
            first_index(s@, b) < s@.len() ==> s@[first_index(s@, b)] == b,
            forall|j: int| 0 <= j < first_index(s@, b) ==> s@[j] != b,
        decreases s@.len() - k,
    {
        if s[k] == b {
            return k;
        }
        k += 1;
    }
    k
}

/// The key/value pair a single `KEY=VAL` segment stands for: the key is what
/// precedes the first `=`, the value what stands between the first and the
/// second; nothing when the segment holds no `=` at all.
pub open spec fn parse_pair_spec(seg: Seq<u8>) -> Option<(Seq<u8>, Seq<u8>)> {
    let i = first_index(seg, 61u8);
    if !(0 <= i && i < seg.len()) {
        None
    } else {
        let rest = seg.skip(i + 1);
        Some((seg.take(i), rest.take(first_index(rest, 61u8))))
    }
}

/// The pairs a comma-separated list of `KEY=VAL` segments stands for, in
/// order; nothing when any segment holds no `=`.
pub open spec fn parse_key_values_spec(s: Seq<u8>) -> Option<Seq<(Seq<u8>, Seq<u8>)>>
    decreases s.len(),
{
    let i = first_index(s, 44u8);
    if !(0 <= i && i < s.len()) {
        match parse_pair_spec(s) {
            None => None,
            Some(p) => Some(seq![p]),
        }
    } else {
        match (parse_pair_spec(s.take(i)), parse_key_values_spec(s.skip(i + 1))) {
            (Some(p), Some(rest)) => Some(seq![p] + rest),
            _ => None,
        }
    }
}

/// The byte sequences each parsed pair holds.
pub open spec fn pairs_view(v: Seq<(Vec<u8>, Vec<u8>)>) -> Seq<(Seq<u8>, Seq<u8>)> {
    v.map_values(|p: (Vec<u8>, Vec<u8>)| (p.0@, p.1@))
}

/// Split one `KEY=VAL` segment.
fn parse_pair(seg: &[u8]) -> (r: Option<(Vec<u8>, Vec<u8>)>)
    ensures
        r is Some <==> parse_pair_spec(seg@) is Some,
        r matches Some(p) ==> parse_pair_spec(seg@) == Some((p.0@, p.1@)),
{
    let e = find_byte(seg, 61);
    proof {
        lemma_first_index(seg@, 61u8);
    }
    if e == seg.len() {
        return None;
    }
    let key = vstd::slice::slice_to_vec(vstd::slice::slice_subrange(seg, 0, e));
    let rest = vstd::slice::slice_subrange(seg, e + 1, seg.len());
    let j = find_byte(rest, 61);
    proof {
        lemma_first_index(rest@, 61u8);
    }
    let value = vstd::slice::slice_to_vec(vstd::slice::slice_subrange(rest, 0, j));
    Some((key, value))
}

/// Parse a `KEY=VAL,KEY2=VAL2` list into its pairs, in order.
///
/// Every segment must hold an `=`; a segment's bytes past a second `=` are
/// dropped, as are any further `=` signs. Returns nothing when some segment
/// has no `=` at all.
pub fn parse_key_values(input: &[u8]) -> (r: Option<Vec<(Vec<u8>, Vec<u8>)>>)
    ensures
        r is Some <==> parse_key_values_spec(input@) is Some,
        r matches Some(v) ==> parse_key_values_spec(input@) == Some(pairs_view(v@)),
{
    let mut out: Vec<(Vec<u8>, Vec<u8>)> = Vec::new();
    let mut rest: &[u8] = input;
    proof {
        assert(pairs_view(out@) + parse_key_values_spec(rest@)->Some_0 =~= parse_key_values_spec(
            rest@,
        )->Some_0);
    }
    loop
        invariant
            parse_key_values_spec(input@) == (match parse_key_values_spec(rest@) {
                Some(t) => Some(pairs_view(out@) + t),
                None => None::<Seq<(Seq<u8>, Seq<u8>)>>,
            }),
        decreases rest@.len(),
    {
        let i = find_byte(rest, 44);
        proof {
            lemma_first_index(rest@, 44u8);
        }
        let seg = vstd::slice::slice_subrange(rest, 0, i);
        proof {
            if i == rest@.len() {
                assert(seg@ =~= rest@);
            }
        }
        let pair = match parse_pair(seg) {
            Some(p) => p,
            None => {
                return None;
            }
        };
        let ghost prior = out@;
        out.push(pair);
        proof {
            assert(pairs_view(out@) =~= pairs_view(prior) + seq![(pair.0@, pair.1@)]);
        }
        if i == rest.len() {
            proof {
                if parse_key_values_spec(rest@) is Some {
                    let t = parse_key_values_spec(rest@)->Some_0;
                    assert(pairs_view(prior) + t =~= pairs_view(out@));
                }
            }
            return Some(out);
        }
        let next = vstd::slice::slice_subrange(rest, i + 1, rest.len());
        proof {
            assert(next@ =~= rest@.skip(i + 1));
            if parse_key_values_spec(next@) is Some {
                let t = parse_key_values_spec(next@)->Some_0;
                assert(pairs_view(prior) + (seq![(pair.0@, pair.1@)] + t) =~= pairs_view(out@)
                    + t);
            }
        }
        rest = next;
    }
}

} // verus!
