//! Path strings and their decomposition.
//!
//! The library represents file paths as plain `String`s whose canonical
//! separator is the forward slash; a backslash is accepted as a separator
//! on input. Everything here is defined over the character sequence of the
//! path, so every helper has an exact specification.

use vstd::prelude::*;
use vstd::string::*;

verus! {

/// A character that separates path components.
pub open spec fn is_sep(c: char) -> bool {
    c == '/' || c == '\\'
}

/// Normalizes a path string: every backslash becomes a forward slash.
pub open spec fn norm_slashes(s: Seq<char>) -> Seq<char> {
    s.map_values(|c: char| if c == '\\' { '/' } else { c })
}

/// Replaces every backslash in `path` with a forward slash, the canonical
/// separator of this library.
pub fn clear_path(path: &String) -> (r: String)
    ensures
        r@ == norm_slashes(path@),
{
    let mut out = String::new();
    let n = path.as_str().unicode_len();
    let mut i: usize = 0;
    while i < n
        invariant
            n == path@.len(),
            i <= n,
            out@ == norm_slashes(path@.take(i as int)),
        decreases n - i,
    {
        let c = path.as_str().get_char(i);
        if c == '\\' {
            out.append("/");
        } else {
            let piece = path.as_str().substring_char(i, i + 1);
            out.append(piece);
        }
        proof {
            reveal_strlit("/");
            assert(out@ =~= norm_slashes(path@.take(i + 1 as int)));
        }
        i = i + 1;
    }
    proof {
        assert(path@.take(n as int) =~= path@);
    }
    out
}

/// The components of `s`: its maximal runs of non-separator characters,
/// scanned from position `i` with the unfinished run `cur` in hand.
pub open spec fn split_from(s: Seq<char>, i: int, cur: Seq<char>) -> Seq<Seq<char>>
    decreases s.len() - i,
{
    if i < 0 || i >= s.len() {
        if cur.len() == 0 {
            Seq::empty()
        } else {
            seq![cur]
        }
    } else if is_sep(s[i]) {
        if cur.len() == 0 {
            split_from(s, i + 1, Seq::empty())
        } else {
            seq![cur] + split_from(s, i + 1, Seq::empty())
        }
    } else {
        split_from(s, i + 1, cur.push(s[i]))
    }
}

/// The components of a path: empty runs between repeated separators are
/// dropped, as are leading and trailing separators.
pub open spec fn components(s: Seq<char>) -> Seq<Seq<char>> {
    split_from(s, 0, Seq::empty())
}

/// Splits `path` into its components.
pub fn split_components(path: &String) -> (r: Vec<String>)
    ensures
        r.deep_view() == components(path@),
{
    let mut out: Vec<String> = Vec::new();
    let mut cur = String::new();
    let n = path.as_str().unicode_len();
    let mut i: usize = 0;
    while i < n
        invariant
            n == path@.len(),
            i <= n,
            components(path@) =~~= out.deep_view() + split_from(path@, i as int, cur@),
        decreases n - i,
    {
        let ghost prev_out = out.deep_view();
        let ghost prev_cur = cur@;
        let c = path.as_str().get_char(i);
        if c == '/' || c == '\\' {
            proof {
                assert(is_sep(path@[i as int]));
                assert(split_from(path@, i as int, prev_cur) == if prev_cur.len() == 0 {
                    split_from(path@, i + 1, Seq::<char>::empty())
                } else {
                    seq![prev_cur] + split_from(path@, i + 1, Seq::<char>::empty())
                });
            }
            if cur.as_str().unicode_len() > 0 {
                out.push(cur);
                cur = String::new();
                proof {
                    assert(out.deep_view() =~~= prev_out.push(prev_cur));
                    assert(cur@ =~= Seq::<char>::empty());
                    assert(out.deep_view() + split_from(path@, i + 1, cur@)
                        =~~= prev_out + (seq![prev_cur] + split_from(path@, i + 1, Seq::<char>::empty())));
                }
            } else {
                proof {
                    assert(cur@ =~= Seq::<char>::empty());
                }
            }
        } else {
            let piece = path.as_str().substring_char(i, i + 1);
            cur.append(piece);
            proof {
                assert(!is_sep(path@[i as int]));
                assert(cur@ =~= prev_cur.push(path@[i as int]));
                assert(split_from(path@, i as int, prev_cur) == split_from(
                    path@,
                    i + 1,
                    prev_cur.push(path@[i as int]),
                ));
            }
        }
        i = i + 1;
    }
    if cur.as_str().unicode_len() > 0 {
        let ghost prev_out = out.deep_view();
        let ghost prev_cur = cur@;
        out.push(cur);
        proof {
            assert(out.deep_view() =~~= prev_out.push(prev_cur));
            assert(out.deep_view() =~~= prev_out + seq![prev_cur]);
        }
    }
    proof {
        assert(out.deep_view() =~~= components(path@));
    }
    out
}

/// The components joined with the canonical separator.
pub open spec fn join_slash(parts: Seq<Seq<char>>) -> Seq<char>
    decreases parts.len(),
{
    if parts.len() == 0 {
        Seq::empty()
    } else if parts.len() == 1 {
        parts[0]
    } else {
        join_slash(parts.drop_last()) + seq!['/'] + parts.last()
    }
}

/// Joins `parts[start..]` with forward slashes.
pub fn join_from(parts: &Vec<String>, start: usize) -> (r: String)
    requires
        start <= parts@.len(),
    ensures
        r@ == join_slash(parts.deep_view().skip(start as int)),
{
    let mut out = String::new();
    let n = parts.len();
    let mut i: usize = start;
    while i < n
        invariant
            start <= i <= n,
            n == parts@.len(),
            out@ == join_slash(parts.deep_view().subrange(start as int, i as int)),
        decreases n - i,
    {
        let ghost prev = out@;
        if i > start {
            out.append("/");
        }
        out.append(parts[i].as_str());
        proof {
            reveal_strlit("/");
            let whole = parts.deep_view().subrange(start as int, i + 1);
            assert(whole.drop_last() =~~= parts.deep_view().subrange(start as int, i as int));
            assert(whole.last() == parts.deep_view()[i as int]);
            assert(out@ =~= join_slash(whole));
        }
        i = i + 1;
    }
    proof {
        assert(parts.deep_view().skip(start as int) =~~= parts.deep_view().subrange(
            start as int,
            n as int,
        ));
    }
    out
}

/// The final component of a path, or the empty string where the path has
/// no component at all.
pub open spec fn last_component(s: Seq<char>) -> Seq<char> {
    let cs = components(s);
    if cs.len() == 0 {
        Seq::empty()
    } else {
        cs.last()
    }
}

/// Returns the final component of `path`.
pub fn file_name(path: &String) -> (r: String)
    ensures
        r@ == last_component(path@),
{
    let parts = split_components(path);
    if parts.len() == 0 {
        String::new()
    } else {
        let r = parts[parts.len() - 1].clone();
        proof {
            assert(r@ == components(path@).last());
        }
        r
    }
}

/// The index of the last dot of a file name, or -1 where it has none.
pub open spec fn last_dot(name: Seq<char>) -> int
    decreases name.len(),
{
    if name.len() == 0 {
        -1
    } else if name.last() == '.' {
        name.len() - 1
    } else {
        last_dot(name.drop_last())
    }
}

/// What `last_dot` finds: the rightmost dot, if any.
proof fn lemma_last_dot(s: Seq<char>)
    ensures
        -1 <= last_dot(s) < s.len(),
        last_dot(s) == -1 ==> forall|i: int| 0 <= i < s.len() ==> s[i] != '.',
        last_dot(s) >= 0 ==> 0 <= last_dot(s) < s.len() && s[last_dot(s)] == '.',
        last_dot(s) >= 0 ==> forall|i: int| last_dot(s) < i < s.len() ==> s[i] != '.',
    decreases s.len(),
{
    if s.len() > 0 && s.last() != '.' {
        lemma_last_dot(s.drop_last());
        assert forall|i: int| 0 <= i < s.len() - 1 implies s.drop_last()[i] == s[i] by {}
    }
}

/// The stem of a file name: everything before its last dot, unless the dot
/// comes first or is missing, in which case the whole name.
pub open spec fn stem_of(name: Seq<char>) -> Seq<char> {
    let d = last_dot(name);
    if d <= 0 {
        name
    } else {
        name.take(d)
    }
}

/// The extension of a file name: everything after its last dot, or the
/// empty string where the dot comes first or is missing.
pub open spec fn ext_of(name: Seq<char>) -> Seq<char> {
    let d = last_dot(name);
    if d <= 0 {
        Seq::empty()
    } else {
        name.skip(d + 1)
    }
}

/// Finds the index of the last dot of `name`, if any.
fn find_last_dot(name: &String) -> (r: Option<usize>)
    ensures
        match r {
            Some(d) => last_dot(name@) == d,
            None => last_dot(name@) == -1,
        },
{
    let n = name.as_str().unicode_len();
    let mut j: usize = n;
    while j > 0
        invariant
            j <= n,
            n == name@.len(),
            forall|k: int| j <= k < n ==> name@[k] != '.',
        decreases j,
    {
        let c = name.as_str().get_char(j - 1);
        if c == '.' {
            proof {
                lemma_last_dot(name@);
                let ld = last_dot(name@);
                assert(name@[j - 1] == '.');
                if ld == -1 {
                    assert(name@[j - 1] != '.');
                } else if ld < j - 1 {
                    assert(name@[j - 1] != '.');
                } else if ld > j - 1 {
                    assert(name@[ld] == '.');
                    assert(name@[ld] != '.');
                }
            }
            return Some(j - 1);
        }
        j = j - 1;
    }
    proof {
        lemma_last_dot(name@);
        let ld = last_dot(name@);
        if ld >= 0 {
            assert(name@[ld] == '.');
            assert(name@[ld] != '.');
        }
    }
    None
}

/// Returns the stem of the file name `name` (which must already be a bare
/// name, not a path).
pub fn name_stem(name: &String) -> (r: String)
    ensures
        r@ == stem_of(name@),
{
    proof {
        lemma_last_dot(name@);
    }
    match find_last_dot(name) {
        Some(d) => {
            if d == 0 {
                name.clone()
            } else {
                let s = name.as_str().substring_char(0, d);
                proof {
                    assert(s@ =~= stem_of(name@));
                }
                String::from_str(s)
            }
        },
        None => name.clone(),
    }
}

/// Returns the extension of the file name `name`, or the empty string.
pub fn name_ext(name: &String) -> (r: String)
    ensures
        r@ == ext_of(name@),
{
    proof {
        lemma_last_dot(name@);
    }
    match find_last_dot(name) {
        Some(d) => {
            if d == 0 {
                proof {
                    assert(ext_of(name@) =~= Seq::<char>::empty());
                }
                String::new()
            } else {
                let n = name.as_str().unicode_len();
                let s = name.as_str().substring_char(d + 1, n);
                proof {
                    assert(s@ =~= ext_of(name@));
                }
                String::from_str(s)
            }
        },
        None => {
            proof {
                assert(ext_of(name@) =~= Seq::<char>::empty());
            }
            String::new()
        },
    }
}

/// The stem that keys the model whitelist: the file name with its last two
/// extensions stripped, so that the companions of a model (`name.dx80.vtx`
/// and the like) share the model's own key.
pub open spec fn model_stem(path: Seq<char>) -> Seq<char> {
    stem_of(stem_of(last_component(path)))
}

/// Returns the whitelist key of the file at `path`.
pub fn file_model_stem(path: &String) -> (r: String)
    ensures
        r@ == model_stem(path@),
{
    let name = file_name(path);
    let once = name_stem(&name);
    name_stem(&once)
}

/// Lexicographic order on character sequences, by code point.
pub open spec fn str_cmp(a: Seq<char>, b: Seq<char>) -> core::cmp::Ordering
    decreases a.len(),
{
    if a.len() == 0 && b.len() == 0 {
        core::cmp::Ordering::Equal
    } else if a.len() == 0 {
        core::cmp::Ordering::Less
    } else if b.len() == 0 {
        core::cmp::Ordering::Greater
    } else if (a[0] as u32) < (b[0] as u32) {
        core::cmp::Ordering::Less
    } else if (a[0] as u32) > (b[0] as u32) {
        core::cmp::Ordering::Greater
    } else {
        str_cmp(a.drop_first(), b.drop_first())
    }
}

/// Whether a path names the branch that holds the binary models: its final
/// component is exactly "models".
pub open spec fn is_models_path(s: Seq<char>) -> bool {
    last_component(s) == "models"@
}

/// The walk order of two paths: a path whose final component is "models"
/// comes before every sibling that is no such path; remaining ties go by
/// lexicographic full-path order. Walking files in this order is what lets
/// every model be decoded before any material file is judged for inclusion.
pub open spec fn spec_walk_order(a: Seq<char>, b: Seq<char>) -> core::cmp::Ordering {
    if is_models_path(a) && !is_models_path(b) {
        core::cmp::Ordering::Less
    } else if !is_models_path(a) && is_models_path(b) {
        core::cmp::Ordering::Greater
    } else {
        str_cmp(a, b)
    }
}

/// Compares two strings lexicographically by code point.
fn str_compare(a: &String, b: &String) -> (r: core::cmp::Ordering)
    ensures
        r == str_cmp(a@, b@),
{
    let na = a.as_str().unicode_len();
    let nb = b.as_str().unicode_len();
    proof {
        assert(a@.skip(0) =~= a@);
        assert(b@.skip(0) =~= b@);
    }
    let mut i: usize = 0;
    loop
        invariant
            i <= na,
            i <= nb,
            na == a@.len(),
            nb == b@.len(),
            str_cmp(a@, b@) == str_cmp(a@.skip(i as int), b@.skip(i as int)),
        decreases na - i,
    {
        if i >= na && i >= nb {
            proof {
                assert(a@.skip(i as int) =~= Seq::<char>::empty());
                assert(b@.skip(i as int) =~= Seq::<char>::empty());
            }
            return core::cmp::Ordering::Equal;
        }
        if i >= na {
            proof {
                assert(a@.skip(i as int) =~= Seq::<char>::empty());
            }
            return core::cmp::Ordering::Less;
        }
        if i >= nb {
            proof {
                assert(b@.skip(i as int) =~= Seq::<char>::empty());
            }
            return core::cmp::Ordering::Greater;
        }
        let ca = a.as_str().get_char(i);
        let cb = b.as_str().get_char(i);
        proof {
            assert(a@.skip(i as int)[0] == a@[i as int]);
            assert(b@.skip(i as int)[0] == b@[i as int]);
        }
        if (ca as u32) < (cb as u32) {
            return core::cmp::Ordering::Less;
        }
        if (ca as u32) > (cb as u32) {
            return core::cmp::Ordering::Greater;
        }
        proof {
            assert(a@.skip(i as int).drop_first() =~= a@.skip(i + 1));
            assert(b@.skip(i as int).drop_first() =~= b@.skip(i + 1));
        }
        i = i + 1;
    }
}

/// Orders two paths as the walker visits them: the "models" branch first,
/// then lexicographically.
pub fn sort_by_models(a: &String, b: &String) -> (r: core::cmp::Ordering)
    ensures
        r == spec_walk_order(a@, b@),
{
    let a_name = file_name(a);
    let b_name = file_name(b);
    let models = String::from_str("models");
    let a_is_model_folder = a_name == models;
    let b_is_model_folder = b_name == models;
    if a_is_model_folder && !b_is_model_folder {
        core::cmp::Ordering::Less
    } else if !a_is_model_folder && b_is_model_folder {
        core::cmp::Ordering::Greater
    } else {
        str_compare(a, b)
    }
}

} // verus!
