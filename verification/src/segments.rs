//! Splitting a class attribute value into its fields.
//!
//! By protocol convention a class attribute arrives as NUL-separated
//! substrings (the instance name followed by the class name, each
//! NUL-terminated). A rule that targets the class matches when its pattern
//! matches any one of the non-empty substrings.

use vstd::prelude::*;

verus! {

/// Splits `v` at each NUL separator and keeps only the non-empty segments;
/// `cur` is the segment read so far.
pub open spec fn split_from(v: Seq<char>, cur: Seq<char>) -> Seq<Seq<char>>
    decreases v.len(),
{
    if v.len() == 0 {
        if cur.len() == 0 {
            Seq::empty()
        } else {
            seq![cur]
        }
    } else if v[0] == '\0' {
        if cur.len() == 0 {
            split_from(v.subrange(1, v.len() as int), Seq::empty())
        } else {
            seq![cur] + split_from(v.subrange(1, v.len() as int), Seq::empty())
        }
    } else {
        split_from(v.subrange(1, v.len() as int), cur.push(v[0]))
    }
}

/// The non-empty NUL-separated segments of a class attribute value, in
/// order of appearance.
pub open spec fn class_segments(v: Seq<char>) -> Seq<Seq<char>> {
    split_from(v, Seq::empty())
}

/// Empty segments are dropped: every segment of a class attribute value is
/// non-empty.
pub proof fn lemma_class_segments_nonempty(v: Seq<char>)
    ensures
        forall|i: int|
            0 <= i < class_segments(v).len() ==> (#[trigger] class_segments(v)[i]).len() > 0,
{
    lemma_split_from_nonempty(v, Seq::empty());
}

proof fn lemma_split_from_nonempty(v: Seq<char>, cur: Seq<char>)
    ensures
        forall|i: int|
            0 <= i < split_from(v, cur).len() ==> (#[trigger] split_from(v, cur)[i]).len() > 0,
    decreases v.len(),
{
    if v.len() == 0 {
        if cur.len() > 0 {
            assert forall|i: int|
                0 <= i < split_from(v, cur).len() implies (#[trigger] split_from(v, cur)[i]).len()
                > 0 by {
                assert(split_from(v, cur)[i] == cur);
            }
        }
    } else if v[0] == '\0' {
        let rest = split_from(v.subrange(1, v.len() as int), Seq::empty());
        lemma_split_from_nonempty(v.subrange(1, v.len() as int), Seq::empty());
        assert forall|i: int|
            0 <= i < split_from(v, cur).len() implies (#[trigger] split_from(v, cur)[i]).len()
            > 0 by {
            if cur.len() == 0 {
                assert(split_from(v, cur)[i] == rest[i]);
            } else if i == 0 {
                assert(split_from(v, cur)[0] == cur);
            } else {
                assert(split_from(v, cur)[i] == rest[i - 1]);
            }
        }
    } else {
        let rest = split_from(v.subrange(1, v.len() as int), cur.push(v[0]));
        lemma_split_from_nonempty(v.subrange(1, v.len() as int), cur.push(v[0]));
        assert forall|i: int|
            0 <= i < split_from(v, cur).len() implies (#[trigger] split_from(v, cur)[i]).len()
            > 0 by {
            assert(split_from(v, cur)[i] == rest[i]);
        }
    }
}

/// Splits a class attribute value on the NUL separator, dropping empty
/// segments.
pub fn split_class_segments(value: &str) -> (segments: Vec<String>)
    ensures
        segments@.map_values(|s: String| s@) == class_segments(value@),
{
    let ghost v = value@;
    let len = value.unicode_len();
    let mut segments: Vec<String> = Vec::new();
    let mut start: usize = 0;
    let mut i: usize = 0;
    proof {
        assert(v.subrange(0, len as int) =~= v);
        assert(v.subrange(0, 0) =~= Seq::<char>::empty());
        assert(segments@.map_values(|s: String| s@) =~= Seq::<Seq<char>>::empty());
        assert(Seq::<Seq<char>>::empty() + split_from(v, Seq::empty()) =~= split_from(
            v,
            Seq::empty(),
        ));
    }
    while i < len
        invariant
            start <= i <= len,
            len == v.len(),
            v == value@,
            class_segments(v) == segments@.map_values(|s: String| s@) + split_from(
                v.subrange(i as int, len as int),
                v.subrange(start as int, i as int),
            ),
        decreases len - i,
    {
        let ghost tail = v.subrange(i as int, len as int);
        let ghost cur = v.subrange(start as int, i as int);
        proof {
            assert(tail[0] == v[i as int]);
            assert(tail.subrange(1, tail.len() as int) =~= v.subrange(
                i as int + 1,
                len as int,
            ));
        }
        let c = value.get_char(i);
        if c == '\0' {
            if start < i {
                let seg = value.substring_char(start, i);
                let owned = String::from_str(seg);
                proof {
                    assert(split_from(tail, cur) == seq![cur] + split_from(
                        tail.subrange(1, tail.len() as int),
                        Seq::empty(),
                    ));
                    assert((segments@.push(owned)).map_values(|s: String| s@)
                        =~= segments@.map_values(|s: String| s@) + seq![cur]);
                    assert(segments@.map_values(|s: String| s@) + (seq![cur] + split_from(
                        v.subrange(i as int + 1, len as int),
                        Seq::empty(),
                    )) =~= (segments@.map_values(|s: String| s@) + seq![cur]) + split_from(
                        v.subrange(i as int + 1, len as int),
                        Seq::empty(),
                    ));
                }
                segments.push(owned);
            } else {
                proof {
                    assert(cur.len() == 0);
                }
            }
            start = i + 1;
            proof {
                assert(v.subrange(start as int, i as int + 1) =~= Seq::<char>::empty());
            }
        } else {
            proof {
                assert(cur.push(v[i as int]) =~= v.subrange(start as int, i as int + 1));
            }
        }
        i = i + 1;
    }
    proof {
        assert(v.subrange(i as int, len as int) =~= Seq::<char>::empty());
    }
    if start < len {
        let seg = value.substring_char(start, len);
        let owned = String::from_str(seg);
        proof {
            let cur = v.subrange(start as int, len as int);
            assert(split_from(Seq::empty(), cur) == seq![cur]);
            assert((segments@.push(owned)).map_values(|s: String| s@) =~= segments@.map_values(
                |s: String| s@,
            ) + seq![cur]);
        }
        segments.push(owned);
    }
    segments
}

} // verus!
