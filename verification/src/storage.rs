//! Where the saved sequences live: the file that a sequence is saved under,
//! and the sequence names that the files of the directory give back, in order.

use vstd::prelude::*;
use crate::text::{
    chars_le, chars_of, lemma_chars_le_total, lemma_chars_le_trans, push_str, str_eq, str_le,
    string_of_range,
};

verus! {

broadcast use vstd::seq_lib::group_seq_properties;

// ---- File names ----

/// What `char::is_alphanumeric` of std answers for `c`: whether `c` is
/// alphabetic or numeric in the sense of the Unicode Character Database.
pub uninterp spec fn unicode_alphanumeric(c: char) -> bool;

/// An ASCII letter or digit.
pub open spec fn ascii_alphanumeric(c: char) -> bool {
    ||| 0x30 <= (c as int) <= 0x39
    ||| 0x41 <= (c as int) <= 0x5A
    ||| 0x61 <= (c as int) <= 0x7A
}

/// `char::is_alphanumeric` of std. Claimed: the answer depends on `c` alone,
/// and among ASCII characters it holds of the letters and digits only.
#[verifier::external_body]
fn is_alphanumeric(c: char) -> (b: bool)
    ensures
        b == unicode_alphanumeric(c),
        (c as int) < 128 ==> (b == ascii_alphanumeric(c)),
{
    c.is_alphanumeric()
}

/// A character of a name as it stands in a file name: letters, digits, `-`
/// and `_` are kept, anything else becomes `_`.
pub open spec fn file_name_char(c: char) -> char {
    if unicode_alphanumeric(c) || c == '-' || c == '_' {
        c
    } else {
        '_'
    }
}

/// A name as it stands in a file name.
pub open spec fn sanitize_spec(name: Seq<char>) -> Seq<char> {
    name.map_values(|c: char| file_name_char(c))
}

/// The file name, without its extension, that a sequence called `name` is
/// saved under.
pub fn sanitize_filename(name: &str) -> (r: String)
    ensures
        r@ == sanitize_spec(name@),
        r@.len() == name@.len(),
        forall|i: int|
            0 <= i < name@.len() && (name@[i] as int) < 128 ==> #[trigger] r@[i] == (if ascii_alphanumeric(
                name@[i],
            ) || name@[i] == '-' || name@[i] == '_' {
                name@[i]
            } else {
                '_'
            }),
{
    let v = chars_of(name);
    let mut r = String::new();
    let mut i: usize = 0;
    while i < v.len()
        invariant
            i <= v.len(),
            v@ == name@,
            r@ == sanitize_spec(v@.take(i as int)),
            forall|k: int|
                0 <= k < i && (v@[k] as int) < 128 ==> #[trigger] unicode_alphanumeric(v@[k])
                    == ascii_alphanumeric(v@[k]),
        decreases v.len() - i,
    {
        let c = v[i];
        let keep = is_alphanumeric(c) || c == '-' || c == '_';
        if keep {
            r.push(c);
        } else {
            r.push('_');
        }
        i = i + 1;
        assert(r@ =~= sanitize_spec(v@.take(i as int)));
    }
    assert(v@.take(i as int) =~= v@);
    r
}

/// The file that a sequence called `name` is saved under.
pub open spec fn sequence_file_spec(name: Seq<char>) -> Seq<char> {
    sanitize_spec(name) + ".json"@
}

/// The file, in the sequences directory, that a sequence called `name` is
/// saved to, loaded from and deleted from.
pub fn sequence_file_name(name: &str) -> (r: String)
    ensures
        r@ == sequence_file_spec(name@),
{
    let mut r = sanitize_filename(name);
    push_str(&mut r, ".json");
    r
}

/// A rename is refused where the new name's file exists and is another file
/// than the one being renamed.
pub fn rename_conflicts(old_name: &str, new_name: &str, new_file_exists: bool) -> (b: bool)
    ensures
        b == (new_file_exists && sequence_file_spec(old_name@) != sequence_file_spec(new_name@)),
{
    if !new_file_exists {
        return false;
    }
    let a = sequence_file_name(old_name);
    let b = sequence_file_name(new_name);
    !str_eq(a.as_str(), b.as_str())
}

// ---- Listing ----

/// The index of the last `.` of `s`, or -1 where it has none.
pub open spec fn last_dot(s: Seq<char>) -> int
    decreases s.len(),
{
    if s.len() == 0 {
        -1
    } else if s.last() == '.' {
        s.len() - 1
    } else {
        last_dot(s.drop_last())
    }
}

/// The stem of a file whose extension is `json`: the name before its last
/// dot, where that dot is not its first character (a name such as `.json`
/// has no extension).
pub open spec fn json_stem_spec(file_name: Seq<char>) -> Option<Seq<char>> {
    let d = last_dot(file_name);
    if d > 0 && file_name.skip(d + 1) == "json"@ {
        Some(file_name.take(d))
    } else {
        None
    }
}

/// The stem of a file of the directory, where it holds a saved sequence.
pub fn json_stem(file_name: &str) -> (r: Option<String>)
    ensures
        r is Some <==> json_stem_spec(file_name@) is Some,
        r matches Some(s) ==> json_stem_spec(file_name@) == Some(s@),
{
    let v = chars_of(file_name);
    let mut i: usize = v.len();
    assert(v@.take(i as int) =~= v@);
    while i > 0 && v[i - 1] != '.'
        invariant
            i <= v@.len(),
            v@ == file_name@,
            last_dot(v@) == last_dot(v@.take(i as int)),
        decreases i,
    {
        assert(v@.take(i as int).drop_last() =~= v@.take(i - 1));
        i = i - 1;
    }
    if i == 0 {
        assert(v@.take(0) =~= Seq::<char>::empty());
        return None;
    }
    assert(v@.take(i as int).last() == '.');
    let d = i - 1;
    if d == 0 {
        return None;
    }
    let ext = string_of_range(&v, d + 1, v.len());
    assert(v@.skip(d + 1) =~= v@.subrange(d + 1, v@.len() as int));
    if !str_eq(ext.as_str(), "json") {
        return None;
    }
    let stem = string_of_range(&v, 0, d);
    assert(v@.take(d as int) =~= v@.subrange(0, d as int));
    Some(stem)
}

/// The stems of the files that hold saved sequences, in the order of the files.
pub open spec fn json_stems(files: Seq<Seq<char>>) -> Seq<Seq<char>>
    decreases files.len(),
{
    if files.len() == 0 {
        Seq::empty()
    } else {
        match json_stem_spec(files.last()) {
            Some(stem) => json_stems(files.drop_last()).push(stem),
            None => json_stems(files.drop_last()),
        }
    }
}

/// The texts of a list of strings.
pub open spec fn views(v: Seq<String>) -> Seq<Seq<char>> {
    v.map_values(|s: String| s@)
}

/// The names are in ascending order.
pub open spec fn sorted_names(s: Seq<Seq<char>>) -> bool {
    forall|i: int, j: int| 0 <= i < j < s.len() ==> chars_le(#[trigger] s[i], #[trigger] s[j])
}

/// Insert `x` into ascending `names`, after the names that come no later.
fn insert_sorted(names: &mut Vec<String>, x: String)
    requires
        sorted_names(views(old(names)@)),
    ensures
        sorted_names(views(final(names)@)),
        views(final(names)@).to_multiset() == views(old(names)@).to_multiset().insert(x@),
{
    let ghost before = views(names@);
    let mut k: usize = 0;
    while k < names.len() && str_le(names[k].as_str(), x.as_str())
        invariant
            k <= names.len(),
            before == views(names@),
            forall|i: int| 0 <= i < k ==> chars_le(#[trigger] before[i], x@),
        decreases names.len() - k,
    {
        k = k + 1;
    }
    proof {
        if k < names.len() {
            lemma_chars_le_total(before[k as int], x@);
        }
    }
    let ghost xv = x@;
    names.insert(k, x);
    let ghost after = views(names@);
    assert(after =~= before.insert(k as int, xv));
    assert forall|i: int, j: int| 0 <= i < j < after.len() implies chars_le(
        #[trigger] after[i],
        #[trigger] after[j],
    ) by {
        if j == k {
            assert(after[i] == before[i]);
        } else if i == k {
            assert(after[j] == before[j - 1]);
            if j - 1 > k {
                lemma_chars_le_trans(xv, before[k as int], before[j - 1]);
            }
        } else if i < k && j > k {
            assert(chars_le(before[i], xv));
            lemma_chars_le_total(before[k as int], xv);
            if k < j - 1 {
                lemma_chars_le_trans(xv, before[k as int], before[j - 1]);
            }
            lemma_chars_le_trans(before[i], xv, before[j - 1]);
        } else if i > k {
            assert(after[i] == before[i - 1] && after[j] == before[j - 1]);
        }
    }
    proof {
        vstd::seq_lib::to_multiset_insert(before, k as int, xv);
    }
}

/// The names of the saved sequences, given the names of the files in the
/// sequences directory: the stems of the `json` files, in ascending order.
pub fn list_sequence_names(file_names: &Vec<String>) -> (names: Vec<String>)
    ensures
        sorted_names(views(names@)),
        views(names@).to_multiset() == json_stems(views(file_names@)).to_multiset(),
{
    let mut names: Vec<String> = Vec::new();
    let mut i: usize = 0;
    assert(views(names@) =~= Seq::<Seq<char>>::empty());
    while i < file_names.len()
        invariant
            i <= file_names.len(),
            sorted_names(views(names@)),
            views(names@).to_multiset() == json_stems(views(file_names@).take(i as int)).to_multiset(),
        decreases file_names.len() - i,
    {
        assert(views(file_names@).take(i + 1).drop_last() =~= views(file_names@).take(i as int));
        assert(views(file_names@).take(i + 1).last() == file_names@[i as int]@);
        match json_stem(file_names[i].as_str()) {
            Some(stem) => {
                insert_sorted(&mut names, stem);
            },
            None => {},
        }
        i = i + 1;
    }
    assert(views(file_names@).take(i as int) =~= views(file_names@));
    names
}

/// A name is its own file name once it has been made one.
pub proof fn lemma_sanitize_idempotent(name: Seq<char>)
    ensures
        sanitize_spec(sanitize_spec(name)) == sanitize_spec(name),
{
    assert(sanitize_spec(sanitize_spec(name)) =~= sanitize_spec(name));
}

/// A sequence saved under a non-empty name is listed under its file name,
/// and that listed name leads back to the very file it was saved to: loading,
/// renaming or deleting it by the listed name reaches what was saved.
pub proof fn lemma_listing_round_trip(name: Seq<char>)
    requires
        name.len() > 0,
    ensures
        json_stem_spec(sequence_file_spec(name)) == Some(sanitize_spec(name)),
        sequence_file_spec(sanitize_spec(name)) == sequence_file_spec(name),
{
    reveal_strlit(".json");
    reveal_strlit("json");
    let s = sanitize_spec(name);
    let f = sequence_file_spec(name);
    assert(f.drop_last().drop_last().drop_last().drop_last() =~= s.push('.'));
    assert(last_dot(s.push('.')) == s.len());
    reveal_with_fuel(last_dot, 5);
    assert(last_dot(f) == s.len());
    assert(f.skip(s.len() + 1int) =~= "json"@);
    assert(f.take(s.len() as int) =~= s);
    lemma_sanitize_idempotent(name);
}

} // verus!
