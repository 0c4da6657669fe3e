use vstd::prelude::*;
use vstd::string::StringExecFns;
use vstd::string::StrSliceExecFns;
use crate::types::views;

verus! {

/// A piece between separators counts unless it is empty or `.`.
pub open spec fn keep_segment(c: Seq<char>) -> bool {
    c.len() > 0 && c != seq!['.']
}

/// A segment names a directory or file (it is not `..`).
pub open spec fn is_normal(c: Seq<char>) -> bool {
    c != seq!['.', '.']
}

pub open spec fn close_segment(done: Seq<Seq<char>>, cur: Seq<char>) -> Seq<Seq<char>> {
    if keep_segment(cur) {
        done.push(cur)
    } else {
        done
    }
}

/// Segments closed so far and the one being read, after reading `s` left to right.
pub open spec fn split_state(s: Seq<char>) -> (Seq<Seq<char>>, Seq<char>)
    decreases s.len(),
{
    if s.len() == 0 {
        (seq![], seq![])
    } else {
        let prev = split_state(s.drop_last());
        if s.last() == '/' {
            (close_segment(prev.0, prev.1), seq![])
        } else {
            (prev.0, prev.1.push(s.last()))
        }
    }
}

/// The segments of a `/`-separated path, without empty and `.` pieces.
pub open spec fn segments(s: Seq<char>) -> Seq<Seq<char>> {
    close_segment(split_state(s).0, split_state(s).1)
}

/// The last segment of a path, if there is one and it is not `..`.
pub open spec fn file_name(s: Seq<char>) -> Option<Seq<char>> {
    let segs = segments(s);
    if segs.len() > 0 && is_normal(segs.last()) {
        Some(segs.last())
    } else {
        None
    }
}

pub open spec fn starts_with_dot(name: Seq<char>) -> bool {
    name.len() > 0 && name[0] == '.'
}

/// Relies on `String`'s `FromIterator<&char>` (`Iterator::collect`): the string holds exactly
/// those chars, in order.
#[verifier::external_body]
pub(crate) fn string_from_chars(v: &Vec<char>) -> (r: String)
    ensures
        r@ == v@,
{
    v.iter().collect()
}

/// The characters of a string.
pub(crate) fn chars_of(s: &str) -> (r: Vec<char>)
    ensures
        r@ == s@,
{
    let n = s.unicode_len();
    let mut out: Vec<char> = Vec::new();
    let mut i: usize = 0;
    while i < n
        invariant
            n == s@.len(),
            i <= n,
            out@ == s@.take(i as int),
        decreases n - i,
    {
        out.push(s.get_char(i));
        assert(out@ =~= s@.take(i as int + 1));
        i += 1;
    }
    assert(s@.take(n as int) =~= s@);
    out
}

/// Split a path into its segments.
pub fn path_segments(path: &str) -> (r: Vec<String>)
    ensures
        views(r@) == segments(path@),
{
    let n = path.unicode_len();
    let mut done: Vec<String> = Vec::new();
    let mut cur: Vec<char> = Vec::new();
    let mut i: usize = 0;
    while i < n
        invariant
            n == path@.len(),
            i <= n,
            (views(done@), cur@) == split_state(path@.take(i as int)),
        decreases n - i,
    {
        let c = path.get_char(i);
        assert(path@.take(i as int + 1).drop_last() == path@.take(i as int));
        if c == '/' {
            if cur.len() > 0 && !(cur.len() == 1 && cur[0] == '.') {
                assert(cur@ != seq!['.'] ==> keep_segment(cur@));
                assert(cur@.len() == 1 && cur@[0] == '.' ==> cur@ =~= seq!['.']);
                let ghost before = done@;
                let s = string_from_chars(&cur);
                done.push(s);
                assert(views(done@) =~= views(before).push(cur@));
            } else {
                assert(!keep_segment(cur@)) by {
                    if cur@.len() == 1 && cur@[0] == '.' {
                        assert(cur@ =~= seq!['.']);
                    }
                }
            }
            cur = Vec::new();
        } else {
            cur.push(c);
        }
        i += 1;
    }
    assert(path@.take(n as int) =~= path@);
    if cur.len() > 0 && !(cur.len() == 1 && cur[0] == '.') {
        assert(cur@ != seq!['.']);
        let ghost before = done@;
        let s = string_from_chars(&cur);
        done.push(s);
        assert(views(done@) =~= views(before).push(cur@));
    } else {
        assert(!keep_segment(cur@)) by {
            if cur@.len() == 1 && cur@[0] == '.' {
                assert(cur@ =~= seq!['.']);
            }
        }
    }
    done
}

} // verus!
