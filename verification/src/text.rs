//! Qualified feature names, and lists of names.
//!
//! A feature is addressed as `view:feature`: the name of the feature view,
//! a colon, and the name of the feature inside that view.

use vstd::prelude::*;

verus! {

/// The character that separates a feature view's name from a feature's name.
pub open spec fn separator() -> char {
    ':'
}

/// `view:feature` as a sequence of characters.
pub open spec fn qualified(view: Seq<char>, feature: Seq<char>) -> Seq<char> {
    view + seq![separator()] + feature
}

/// The first position at or after `from` that holds a separator, or the
/// length of `s` where none is left.
pub open spec fn field_end(s: Seq<char>, from: int) -> int
    decreases s.len() - from,
{
    if from < 0 || from >= s.len() {
        s.len() as int
    } else if s[from] == separator() {
        from
    } else {
        field_end(s, from + 1)
    }
}

/// Whether `s` holds a separator at all.
pub open spec fn has_separator(s: Seq<char>) -> bool {
    field_end(s, 0) < s.len()
}

/// What stands before the first separator of `s`.
pub open spec fn view_part(s: Seq<char>) -> Seq<char> {
    s.subrange(0, field_end(s, 0))
}

/// What stands between the first separator of `s` and the next one (or the
/// end of `s`). Meaningful where `has_separator(s)`.
pub open spec fn feature_part(s: Seq<char>) -> Seq<char> {
    let start = field_end(s, 0) + 1;
    s.subrange(start, field_end(s, start))
}

/// `field_end` stays inside the string and marks a separator whenever it
/// stops before the end; nothing between `from` and it is a separator.
pub proof fn lemma_field_end(s: Seq<char>, from: int)
    requires
        0 <= from <= s.len(),
    ensures
        from <= field_end(s, from) <= s.len(),
        field_end(s, from) < s.len() ==> s[field_end(s, from)] == separator(),
        forall|k: int| from <= k < field_end(s, from) ==> s[k] != separator(),
    decreases s.len() - from,
{
    if from < s.len() && s[from] != separator() {
        lemma_field_end(s, from + 1);
    }
}

/// Builds `view:feature`.
pub fn qualify(view: &str, feature: &str) -> (name: String)
    ensures
        name@ == qualified(view@, feature@),
{
    proof {
        reveal_strlit(":");
    }
    let name = String::from_str(view).concat(":").concat(feature);
    assert(":"@ =~= seq![separator()]);
    name
}

/// Finds the end of the field of `s` that starts at character `from`.
pub fn find_field_end(s: &str, from: usize) -> (end: usize)
    requires
        from <= s@.len(),
    ensures
        end == field_end(s@, from as int),
        from <= end <= s@.len(),
{
    let n = s.unicode_len();
    let mut i: usize = from;
    while i < n
        invariant
            n == s@.len(),
            from <= i <= n,
            field_end(s@, from as int) == field_end(s@, i as int),
        decreases n - i,
    {
        if s.get_char(i) == ':' {
            return i;
        }
        i += 1;
    }
    i
}

/// The two leading fields of a qualified name: the view's name and the
/// feature's name. `None` where `s` holds no separator.
pub fn split_qualified(s: &str) -> (parts: Option<(String, String)>)
    ensures
        parts is Some <==> has_separator(s@),
        parts matches Some((view, feature)) ==> view@ == view_part(s@) && feature@
            == feature_part(s@),
{
    let n = s.unicode_len();
    let first = find_field_end(s, 0);
    if first >= n {
        return None;
    }
    proof {
        lemma_field_end(s@, 0);
        lemma_field_end(s@, first + 1);
    }
    let second = find_field_end(s, first + 1);
    let view = String::from_str(s.substring_char(0, first));
    let feature = String::from_str(s.substring_char(first + 1, second));
    Some((view, feature))
}

/// Copies a list of names.
pub fn copy_names(names: &Vec<String>) -> (copy: Vec<String>)
    ensures
        copy@ == names@,
{
    let mut copy: Vec<String> = Vec::new();
    let mut i: usize = 0;
    while i < names.len()
        invariant
            i <= names.len(),
            copy@ == names@.take(i as int),
        decreases names.len() - i,
    {
        copy.push(names[i].clone());
        assert(copy@ =~= names@.take(i + 1));
        i += 1;
    }
    assert(names@.take(names@.len() as int) =~= names@);
    copy
}

/// Whether two lists hold the same names in the same order.
pub fn same_names(a: &Vec<String>, b: &Vec<String>) -> (same: bool)
    ensures
        same == (a.deep_view() == b.deep_view()),
{
    if a.len() != b.len() {
        assert(a.deep_view().len() != b.deep_view().len());
        return false;
    }
    let mut i: usize = 0;
    while i < a.len()
        invariant
            i <= a.len(),
            a.len() == b.len(),
            forall|k: int| 0 <= k < i ==> a@[k]@ == b@[k]@,
        decreases a.len() - i,
    {
        if a[i] != b[i] {
            assert(a.deep_view()[i as int] != b.deep_view()[i as int]);
            return false;
        }
        i += 1;
    }
    assert(a.deep_view() =~= b.deep_view());
    true
}

} // verus!
