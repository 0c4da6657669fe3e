use vstd::prelude::*;
use vstd::string::StringExecFns;
use vstd::string::StrSliceExecFns;
use crate::path::{chars_of, file_name, path_segments, segments, starts_with_dot, string_from_chars};
use crate::query::{contains_str, has_substring};
use crate::types::{views, ProjectType};
use crate::walker::{join, join_path};
use std::collections::HashSet;

verus! {

/// Why a relative path could not be formed.
#[derive(Clone, Copy, Debug, PartialEq, Eq, Structural)]
pub enum PathError {
    /// The target does not lie within the base.
    NotWithin,
}

pub open spec fn is_absolute(s: Seq<char>) -> bool {
    s.len() > 0 && s[0] == '/'
}

/// `target` lies at or below `base`: both are absolute or both relative, and the segments of
/// `base` begin those of `target`.
pub open spec fn within(base: Seq<char>, target: Seq<char>) -> bool {
    &&& is_absolute(base) == is_absolute(target)
    &&& segments(base).len() <= segments(target).len()
    &&& segments(target).take(segments(base).len() as int) == segments(base)
}

/// Segments joined with `/` between them.
pub open spec fn join_segments(segs: Seq<Seq<char>>) -> Seq<char>
    decreases segs.len(),
{
    if segs.len() == 0 {
        seq![]
    } else if segs.len() == 1 {
        segs[0]
    } else {
        join_segments(segs.drop_last()) + seq!['/'] + segs.last()
    }
}

fn is_absolute_str(s: &str) -> (r: bool)
    ensures
        r == is_absolute(s@),
{
    s.unicode_len() > 0 && s.get_char(0) == '/'
}

fn segments_prefix(base: &Vec<String>, target: &Vec<String>) -> (r: bool)
    ensures
        r == (base@.len() <= target@.len() && views(target@).take(base@.len() as int) == views(
            base@,
        )),
{
    if base.len() > target.len() {
        return false;
    }
    let mut i: usize = 0;
    while i < base.len()
        invariant
            base@.len() <= target@.len(),
            i <= base@.len(),
            forall|j: int| 0 <= j < i ==> #[trigger] views(target@)[j] == views(base@)[j],
        decreases base@.len() - i,
    {
        if !base[i].eq(&target[i]) {
            assert(views(target@).take(base@.len() as int)[i as int] != views(base@)[i as int]);
            return false;
        }
        i += 1;
    }
    assert(views(target@).take(base@.len() as int) =~= views(base@));
    true
}

/// Whether `target` lies at or below `base`, segment by segment. Both paths are taken as given:
/// callers resolve them (make them absolute, follow links) first.
pub fn is_path_within(base: &str, target: &str) -> (r: bool)
    ensures
        r == within(base@, target@),
{
    if is_absolute_str(base) != is_absolute_str(target) {
        return false;
    }
    let b = path_segments(base);
    let t = path_segments(target);
    segments_prefix(&b, &t)
}

/// The path of `to` relative to `from`: the segments of `to` after those of `from`, joined with
/// `/`. Fails when `to` does not lie within `from`.
pub fn get_relative_path(from: &str, to: &str) -> (r: Result<String, PathError>)
    ensures
        !within(from@, to@) ==> r == Err::<String, PathError>(PathError::NotWithin),
        within(from@, to@) ==> (r matches Ok(p) && p@ == join_segments(
            segments(to@).skip(segments(from@).len() as int),
        )),
{
    if !is_path_within(from, to) {
        return Err(PathError::NotWithin);
    }
    let b = path_segments(from);
    let t = path_segments(to);
    let ghost rest = views(t@).skip(b@.len() as int);
    let mut out: Vec<char> = Vec::new();
    let mut i: usize = b.len();
    while i < t.len()
        invariant
            b@.len() <= i <= t@.len(),
            rest == views(t@).skip(b@.len() as int),
            out@ == join_segments(rest.take(i - b@.len())),
        decreases t@.len() - i,
    {
        let ghost k = i - b@.len();
        assert(rest.take(k + 1).drop_last() =~= rest.take(k));
        assert(rest.take(k + 1).last() == t@[i as int]@);
        let seg = chars_of(t[i].as_str());
        if i > b.len() {
            out.push('/');
        }
        let ghost before = out@;
        let mut j: usize = 0;
        while j < seg.len()
            invariant
                j <= seg@.len(),
                out@ == before + seg@.take(j as int),
            decreases seg@.len() - j,
        {
            out.push(seg[j]);
            assert(out@ =~= before + seg@.take(j as int + 1));
            j += 1;
        }
        assert(seg@.take(seg@.len() as int) =~= seg@);
        proof {
            if k == 0 {
                assert(rest.take(1) =~= seq![rest[0]]);
                assert(out@ =~= seg@);
            } else {
                assert(out@ =~= join_segments(rest.take(k)) + seq!['/'] + seg@);
            }
        }
        i += 1;
    }
    assert(rest.take(t@.len() - b@.len()) =~= rest);
    Ok(string_from_chars(&out))
}

/// A component that could leave the base: it holds `..` or starts with a separator.
pub open spec fn unsafe_component(c: Seq<char>) -> bool {
    has_substring(c, seq!['.', '.']) || (c.len() > 0 && (c[0] == '/' || c[0] == '\\'))
}

/// The base joined with each safe component in turn; unsafe ones are left out.
pub open spec fn safe_join(base: Seq<char>, comps: Seq<Seq<char>>) -> Seq<char>
    decreases comps.len(),
{
    if comps.len() == 0 {
        base
    } else {
        let prev = safe_join(base, comps.drop_last());
        if unsafe_component(comps.last()) {
            prev
        } else {
            join(prev, comps.last())
        }
    }
}

pub open spec fn str_views(v: Seq<&str>) -> Seq<Seq<char>> {
    v.map_values(|s: &str| s@)
}

/// Join components onto a base path, leaving out any that holds `..` or starts with `/` or `\`.
pub fn safe_join_paths(base: &str, components: &[&str]) -> (r: String)
    ensures
        r@ == safe_join(base@, str_views(components@)),
{
    let mut result = String::from_str(base);
    let dots = String::from_str("..");
    proof {
        reveal_strlit("..");
    }
    let mut i: usize = 0;
    while i < components.len()
        invariant
            i <= components@.len(),
            dots@ == seq!['.', '.'],
            result@ == safe_join(base@, str_views(components@).take(i as int)),
        decreases components@.len() - i,
    {
        let c = components[i];
        assert(str_views(components@).take(i as int + 1).drop_last() =~= str_views(
            components@,
        ).take(i as int));
        assert(str_views(components@).take(i as int + 1).last() == c@);
        let n = c.unicode_len();
        let bad = contains_str(c, dots.as_str()) || (n > 0 && (c.get_char(0) == '/' || c.get_char(0)
            == '\\'));
        if !bad {
            let name = String::from_str(c);
            result = join_path(&result, &name);
        }
        i += 1;
    }
    assert(str_views(components@).take(i as int) =~= str_views(components@));
    result
}

/// Index of the last `.` in a name, if any.
pub open spec fn last_dot(f: Seq<char>) -> Option<int>
    decreases f.len(),
{
    if f.len() == 0 {
        None
    } else if f.last() == '.' {
        Some(f.len() - 1)
    } else {
        last_dot(f.drop_last())
    }
}

/// The extension of a path: what follows the last `.` of its file name, unless that dot is the
/// name's first character.
pub open spec fn extension(path: Seq<char>) -> Option<Seq<char>> {
    match file_name(path) {
        Some(f) => match last_dot(f) {
            Some(k) => if k == 0 {
                None
            } else {
                Some(f.subrange(k + 1, f.len() as int))
            },
            None => None,
        },
        None => None,
    }
}

pub open spec fn ascii_lower(c: char) -> char {
    if 'A' <= c <= 'Z' {
        ((c as u32) + 32) as char
    } else {
        c
    }
}

/// Equal once ASCII letters are folded to lower case.
pub open spec fn eq_ignore_ascii_case(a: Seq<char>, b: Seq<char>) -> bool {
    a.len() == b.len() && forall|i: int| 0 <= i < a.len() ==> ascii_lower(a[i]) == ascii_lower(b[i])
}

/// Relies on `char::to_ascii_lowercase`: `A`..=`Z` map to `a`..=`z`, other characters are
/// unchanged.
#[verifier::external_body]
fn ascii_lower_char(c: char) -> (r: char)
    ensures
        r == ascii_lower(c),
{
    c.to_ascii_lowercase()
}

fn eq_ignore_case(a: &Vec<char>, b: &str) -> (r: bool)
    ensures
        r == eq_ignore_ascii_case(a@, b@),
{
    let n = b.unicode_len();
    if a.len() != n {
        return false;
    }
    let mut i: usize = 0;
    while i < n
        invariant
            n == a@.len(),
            n == b@.len(),
            i <= n,
            forall|j: int| 0 <= j < i ==> ascii_lower(a@[j]) == ascii_lower(b@[j]),
        decreases n - i,
    {
        if ascii_lower_char(a[i]) != ascii_lower_char(b.get_char(i)) {
            return false;
        }
        i += 1;
    }
    true
}

/// The extension of a path, computed from its segments.
pub fn path_extension(path: &str) -> (r: Option<Vec<char>>)
    ensures
        match extension(path@) {
            Some(e) => r matches Some(v) && v@ == e,
            None => r is None,
        },
{
    let segs = path_segments(path);
    if segs.len() == 0 {
        return None;
    }
    let last = chars_of(segs[segs.len() - 1].as_str());
    assert(segments(path@).last() == last@);
    if last.len() == 2 && last[0] == '.' && last[1] == '.' {
        assert(last@ =~= seq!['.', '.']);
        return None;
    }
    assert(file_name(path@) == Some(last@));
    let mut k: usize = last.len();
    assert(last@.take(k as int) =~= last@);
    while k > 0
        invariant
            k <= last@.len(),
            file_name(path@) == Some(last@),
            last_dot(last@) == last_dot(last@.take(k as int)),
        decreases k,
    {
        assert(last@.take(k as int).drop_last() =~= last@.take(k as int - 1));
        if last[k - 1] == '.' {
            assert(last@.take(k as int).last() == '.');
            assert(last_dot(last@) == Some(k - 1));
            if k - 1 == 0 {
                return None;
            }
            let mut ext: Vec<char> = Vec::new();
            let mut j: usize = k;
            while j < last.len()
                invariant
                    k <= j <= last@.len(),
                    ext@ == last@.subrange(k as int, j as int),
                decreases last@.len() - j,
            {
                ext.push(last[j]);
                assert(ext@ =~= last@.subrange(k as int, j as int + 1));
                j += 1;
            }
            assert(extension(path@) == Some(last@.subrange(k as int, last@.len() as int)));
            return Some(ext);
        }
        k -= 1;
    }
    assert(last@.take(0) =~= seq![]);
    None
}

/// Whether the path's extension equals one of the given ones, ignoring ASCII case.
pub fn has_extension(path: &str, extensions: &[&str]) -> (r: bool)
    ensures
        r == match extension(path@) {
            Some(e) => exists|i: int|
                0 <= i < extensions@.len() && eq_ignore_ascii_case(e, #[trigger] extensions@[i]@),
            None => false,
        },
{
    match path_extension(path) {
        Some(ext) => {
            let mut i: usize = 0;
            while i < extensions.len()
                invariant
                    i <= extensions@.len(),
                    extension(path@) == Some(ext@),
                    forall|j: int|
                        0 <= j < i ==> !eq_ignore_ascii_case(ext@, #[trigger] extensions@[j]@),
                decreases extensions@.len() - i,
            {
                if eq_ignore_case(&ext, extensions[i]) {
                    return true;
                }
                i += 1;
            }
            false
        },
        None => false,
    }
}

/// Whether the file name of a path starts with `.`.
pub fn is_hidden_path(path: &str) -> (r: bool)
    ensures
        r == (file_name(path@) matches Some(f) && starts_with_dot(f)),
{
    let segs = path_segments(path);
    if segs.len() == 0 {
        return false;
    }
    let last = segs[segs.len() - 1].as_str();
    assert(segments(path@).last() == last@);
    let n = last.unicode_len();
    if n == 2 && last.get_char(0) == '.' && last.get_char(1) == '.' {
        assert(last@ =~= seq!['.', '.']);
        return false;
    }
    n > 0 && last.get_char(0) == '.'
}

pub open spec fn priority(t: ProjectType) -> i32 {
    match t {
        ProjectType::Rust => 10,
        ProjectType::NodeJs => 9,
        ProjectType::Python => 8,
        ProjectType::Go => 7,
        ProjectType::Java => 6,
        ProjectType::Ruby => 5,
        ProjectType::Nix => 4,
        ProjectType::Git => 1,
        ProjectType::Unknown => 0,
    }
}

/// Sort priority of a project type: higher sorts first.
pub fn get_project_type_priority(project_type: &ProjectType) -> (r: i32)
    ensures
        r == priority(*project_type),
{
    match project_type {
        ProjectType::Rust => 10,
        ProjectType::NodeJs => 9,
        ProjectType::Python => 8,
        ProjectType::Go => 7,
        ProjectType::Java => 6,
        ProjectType::Ruby => 5,
        ProjectType::Nix => 4,
        ProjectType::Git => 1,
        ProjectType::Unknown => 0,
    }
}

/// The Unicode general category `Cc` (control characters).
pub open spec fn is_control(c: char) -> bool {
    c <= '\u{1f}' || ('\u{7f}' <= c <= '\u{9f}')
}

/// Relies on `char::is_control`, documented as the general category `Cc`.
#[verifier::external_body]
fn char_is_control(c: char) -> (r: bool)
    ensures
        r == is_control(c),
{
    c.is_control()
}

/// What a character becomes in a file name: path separators, characters reserved on common
/// file systems and control characters become `_`.
pub open spec fn sanitized(c: char) -> char {
    if c == '/' || c == '\\' || c == ':' || c == '*' || c == '?' || c == '"' || c == '<' || c == '>'
        || c == '|' || is_control(c) {
        '_'
    } else {
        c
    }
}

/// Make a string safe to use as a file name.
pub fn sanitize_filename(name: &str) -> (r: String)
    ensures
        r@ == name@.map_values(|c: char| sanitized(c)),
{
    let n = name.unicode_len();
    let mut out: Vec<char> = Vec::new();
    let mut i: usize = 0;
    while i < n
        invariant
            n == name@.len(),
            i <= n,
            out@ == name@.take(i as int).map_values(|c: char| sanitized(c)),
        decreases n - i,
    {
        let c = name.get_char(i);
        let d = if c == '/' || c == '\\' || c == ':' || c == '*' || c == '?' || c == '"' || c == '<'
            || c == '>' || c == '|' || char_is_control(c) {
            '_'
        } else {
            c
        };
        out.push(d);
        assert(out@ =~= name@.take(i as int + 1).map_values(|c: char| sanitized(c)));
        i += 1;
    }
    assert(name@.take(n as int) =~= name@);
    string_from_chars(&out)
}

/// The indicator names looked up by `get_project_indicators_set`.
pub open spec fn indicator_set_names() -> Seq<Seq<char>> {
    seq![
        ".git"@,
        "package.json"@,
        "Gemfile"@,
        ".gemspec"@,
        "Cargo.toml"@,
        "pyproject.toml"@,
        "go.mod"@,
        "pom.xml"@,
        "devenv.nix"@,
    ]
}

/// The common indicator names, as a list.
pub fn project_indicator_names() -> (r: Vec<String>)
    ensures
        views(r@) == indicator_set_names(),
{
    let v = vec![
        String::from_str(".git"),
        String::from_str("package.json"),
        String::from_str("Gemfile"),
        String::from_str(".gemspec"),
        String::from_str("Cargo.toml"),
        String::from_str("pyproject.toml"),
        String::from_str("go.mod"),
        String::from_str("pom.xml"),
        String::from_str("devenv.nix"),
    ];
    assert(views(v@) =~= indicator_set_names());
    v
}

/// The common indicator names, as a set for lookups (the names of `project_indicator_names`).
pub fn get_project_indicators_set() -> HashSet<String> {
    let names = project_indicator_names();
    let mut set: HashSet<String> = HashSet::new();
    let mut i: usize = 0;
    while i < names.len()
        invariant
            i <= names@.len(),
        decreases names@.len() - i,
    {
        set.insert(names[i].clone());
        i += 1;
    }
    set
}

/// The decimal digit for `d` (below ten).
pub open spec fn digit(d: nat) -> char {
    ((48 + d) as u32) as char
}

/// The decimal numeral of `n`.
pub open spec fn decimal(n: nat) -> Seq<char>
    decreases n,
{
    if n < 10 {
        seq![digit(n)]
    } else {
        decimal(n / 10).push(digit(n % 10))
    }
}

/// The size of a unit: 1024 to the power of its index (bytes, KB, MB, GB, TB).
pub open spec fn unit_size(k: nat) -> nat {
    if k == 0 {
        1
    } else if k == 1 {
        1024
    } else if k == 2 {
        1048576
    } else if k == 3 {
        1073741824
    } else {
        1099511627776
    }
}

/// The largest unit (up to TB) that the size reaches.
pub open spec fn unit_of(b: nat) -> nat {
    if b >= unit_size(4) {
        4
    } else if b >= unit_size(3) {
        3
    } else if b >= unit_size(2) {
        2
    } else if b >= unit_size(1) {
        1
    } else {
        0
    }
}

pub open spec fn unit_label(k: nat) -> Seq<char> {
    if k == 0 {
        seq!['B']
    } else if k == 1 {
        seq!['K', 'B']
    } else if k == 2 {
        seq!['M', 'B']
    } else if k == 3 {
        seq!['G', 'B']
    } else {
        seq!['T', 'B']
    }
}

/// `b / d` in tenths, rounded to the nearest tenth, ties to even.
pub open spec fn tenths(b: nat, d: nat) -> nat
    recommends
        d > 0,
{
    let q = (b * 10) / d;
    let rem = (b * 10) % d;
    if 2 * rem > d || (2 * rem == d && q % 2 == 1) {
        q + 1
    } else {
        q
    }
}

/// A byte count in the largest unit it reaches: whole bytes as they are, larger units with one
/// decimal.
pub open spec fn size_text(b: nat) -> Seq<char> {
    let k = unit_of(b);
    if k == 0 {
        decimal(b) + seq![' '] + unit_label(0)
    } else {
        let t = tenths(b, unit_size(k));
        decimal(t / 10) + seq!['.', digit(t % 10), ' '] + unit_label(k)
    }
}

fn digit_char(d: u128) -> (r: char)
    requires
        d < 10,
    ensures
        r == digit(d as nat),
{
    if d == 0 {
        '0'
    } else if d == 1 {
        '1'
    } else if d == 2 {
        '2'
    } else if d == 3 {
        '3'
    } else if d == 4 {
        '4'
    } else if d == 5 {
        '5'
    } else if d == 6 {
        '6'
    } else if d == 7 {
        '7'
    } else if d == 8 {
        '8'
    } else {
        '9'
    }
}

fn push_decimal(out: &mut Vec<char>, n: u128)
    ensures
        final(out)@ == old(out)@ + decimal(n as nat),
    decreases n,
{
    if n < 10 {
        out.push(digit_char(n));
    } else {
        push_decimal(out, n / 10);
        out.push(digit_char(n % 10));
    }
}

fn push_label(out: &mut Vec<char>, k: u128)
    ensures
        final(out)@ == old(out)@ + unit_label(k as nat),
{
    if k == 1 {
        out.push('K');
    } else if k == 2 {
        out.push('M');
    } else if k == 3 {
        out.push('G');
    } else if k >= 4 {
        out.push('T');
    }
    out.push('B');
}

/// A byte count for people: `1023 B`, `1.0 KB`, `1.5 MB`, up to TB.
pub fn format_file_size(bytes: u64) -> (r: String)
    ensures
        r@ == size_text(bytes as nat),
{
    let b = bytes as u128;
    let k: u128 = if b >= 1099511627776 {
        4
    } else if b >= 1073741824 {
        3
    } else if b >= 1048576 {
        2
    } else if b >= 1024 {
        1
    } else {
        0
    };
    let mut out: Vec<char> = Vec::new();
    if k == 0 {
        push_decimal(&mut out, b);
        out.push(' ');
        push_label(&mut out, 0);
        assert(out@ =~= size_text(bytes as nat));
        return string_from_chars(&out);
    }
    let d: u128 = if k == 1 {
        1024
    } else if k == 2 {
        1048576
    } else if k == 3 {
        1073741824
    } else {
        1099511627776
    };
    assert(d == unit_size(k as nat));
    let q = (b * 10) / d;
    let rem = (b * 10) % d;
    let t = if 2 * rem > d || (2 * rem == d && q % 2 == 1) {
        q + 1
    } else {
        q
    };
    assert(t == tenths(bytes as nat, unit_size(k as nat)));
    push_decimal(&mut out, t / 10);
    out.push('.');
    out.push(digit_char(t % 10));
    out.push(' ');
    push_label(&mut out, k);
    assert(out@ =~= size_text(bytes as nat));
    string_from_chars(&out)
}

} // verus!
