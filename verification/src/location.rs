use vstd::prelude::*;

verus! {

/// The directory that holds the settings, under the home directory `home`.
pub fn settings_dir(home: &str) -> (d: String)
    ensures
        d@ == home@ + "/.pyra"@,
{
    String::from_str(home).concat("/.pyra")
}

/// The settings file, under the home directory `home`.
pub fn settings_file(home: &str) -> (f: String)
    ensures
        f@ == home@ + "/.pyra/settings.json"@,
{
    String::from_str(home).concat("/.pyra/settings.json")
}

/// The text after the last `/` of `s`, or all of `s` when it holds no `/`:
/// the last item of `s` split at `/`.
pub open spec fn last_component(s: Seq<char>) -> Seq<char>
    decreases s.len(),
{
    if s.len() == 0 {
        s
    } else if s.last() == '/' {
        Seq::empty()
    } else {
        last_component(s.drop_last()).push(s.last())
    }
}

/// When `s[k..]` holds no `/` and `k` starts `s` or follows a `/`, the last
/// component of `s` is `s[k..]`.
proof fn lemma_last_component_from(s: Seq<char>, k: int)
    requires
        0 <= k <= s.len(),
        forall|j: int| k <= j < s.len() ==> s[j] != '/',
        k == 0 || s[k - 1] == '/',
    ensures
        last_component(s) == s.subrange(k, s.len() as int),
    decreases s.len(),
{
    if s.len() == k {
        assert(s.subrange(k, s.len() as int) =~= Seq::<char>::empty());
        if k > 0 {
            assert(s.last() == s[k - 1]);
        }
    } else {
        lemma_last_component_from(s.drop_last(), k);
        assert(s.subrange(k, s.len() as int) =~= s.drop_last().subrange(
            k,
            s.len() - 1,
        ).push(s.last()));
    }
}

/// The last component of a path: the name suggested for a project that lives
/// there.
pub fn last_path_component(path: &str) -> (c: String)
    ensures
        c@ == last_component(path@),
{
    let len = path.unicode_len();
    let mut k = len;
    while k > 0 && path.get_char(k - 1) != '/'
        invariant
            k <= len,
            len == path@.len(),
            forall|j: int| k <= j < len ==> path@[j] != '/',
        decreases k,
    {
        k = k - 1;
    }
    proof {
        lemma_last_component_from(path@, k as int);
    }
    String::from_str(path.substring_char(k, len))
}

} // verus!
