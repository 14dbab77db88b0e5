//! The template set resolver: decides whether a template argument is one
//! literal path or a glob pattern, what a glob's fixed prefix is, which
//! identifier a matched file gets, and where a rendered template is written.

use vstd::prelude::*;
use crate::error::Error;
use crate::text::{str_eq, str_starts_with};

verus! {

/// The glob metacharacters: a pattern containing none of these is a literal
/// path.
pub open spec fn is_glob_meta(c: char) -> bool {
    c == '*' || c == '?' || c == '[' || c == ']'
}

/// A pattern is a glob when it holds at least one metacharacter.
pub open spec fn spec_has_glob_meta(s: Seq<char>) -> bool {
    exists|i: int| 0 <= i < s.len() && is_glob_meta(s[i])
}

fn is_glob_meta_char(c: char) -> (r: bool)
    ensures
        r == is_glob_meta(c),
{
    c == '*' || c == '?' || c == '[' || c == ']'
}

/// True when the pattern holds a glob metacharacter.
pub fn has_glob_meta(s: &str) -> (r: bool)
    ensures
        r == spec_has_glob_meta(s@),
{
    let n = s.unicode_len();
    let mut i: usize = 0;
    while i < n
        invariant
            0 <= i <= n,
            n == s@.len(),
            forall|j: int| 0 <= j < i ==> !is_glob_meta(s@[j]),
        decreases n - i,
    {
        if is_glob_meta_char(s.get_char(i)) {
            return true;
        }
        i = i + 1;
    }
    false
}

/// How one run renders: a literal template path to standard output, or a
/// glob's matches into an output directory, mirroring each match's relative
/// path.
#[derive(Debug)]
pub enum TemplatePlan {
    SingleToStdout { path: String },
    TreeToDirectory { pattern: String, out_dir: String },
}

/// Decides the run's mode from the template argument. A pattern without
/// glob metacharacters names one template, rendered to standard output (an
/// output directory, if any, is not consulted). A glob pattern requires an
/// output directory: rendering many templates to one stream is ill-defined,
/// and the lack is reported before anything is read or written.
pub fn plan_templates(pattern: &str, out_dir: &Option<String>) -> (r: Result<TemplatePlan, Error>)
    ensures
        !spec_has_glob_meta(pattern@) ==> (r matches Ok(TemplatePlan::SingleToStdout { path })
            && path@ == pattern@),
        spec_has_glob_meta(pattern@) ==> (match *out_dir {
            Some(od) => (r matches Ok(TemplatePlan::TreeToDirectory { pattern: p, out_dir: d })
                && p@ == pattern@ && d@ == od@),
            None => r == Err::<TemplatePlan, Error>(Error::OutputDirRequired),
        }),
{
    if !has_glob_meta(pattern) {
        Ok(TemplatePlan::SingleToStdout { path: pattern.to_owned() })
    } else {
        match out_dir {
            Some(d) => Ok(
                TemplatePlan::TreeToDirectory { pattern: pattern.to_owned(), out_dir: d.clone() },
            ),
            None => Err(Error::OutputDirRequired),
        }
    }
}

/// The first index of a glob metacharacter, or the length when there is
/// none.
pub open spec fn spec_first_meta(s: Seq<char>) -> int
    decreases s.len(),
{
    if s.len() == 0 {
        0
    } else if is_glob_meta(s[0]) {
        0
    } else {
        1 + spec_first_meta(s.drop_first())
    }
}

/// Where the fixed prefix of a glob pattern ends: one past the last `/`
/// strictly before the first metacharacter, or zero when no such `/`
/// exists.
pub open spec fn spec_prefix_end(s: Seq<char>) -> int {
    let m = spec_first_meta(s);
    if exists|j: int| 0 <= j < m && s[j] == '/' {
        (choose|j: int| 0 <= j < m && s[j] == '/' && (forall|l: int| j < l < m ==> s[l] != '/'))
            + 1
    } else {
        0
    }
}

proof fn lemma_first_meta_bounds(s: Seq<char>)
    ensures
        0 <= spec_first_meta(s) <= s.len(),
        forall|j: int| 0 <= j < spec_first_meta(s) ==> !is_glob_meta(s[j]),
        spec_first_meta(s) < s.len() ==> is_glob_meta(s[spec_first_meta(s)]),
    decreases s.len(),
{
    if s.len() > 0 && !is_glob_meta(s[0]) {
        lemma_first_meta_bounds(s.drop_first());
        assert forall|j: int| 0 <= j < spec_first_meta(s) implies !is_glob_meta(s[j]) by {
            if j > 0 {
                assert(!is_glob_meta(s.drop_first()[j - 1]));
            }
        }
    }
}

/// The fixed prefix of a glob pattern: everything up to and including the
/// last `/` before the first metacharacter. Matched files are identified
/// relative to this prefix.
pub fn glob_fixed_prefix(pattern: &str) -> (r: String)
    ensures
        r@ == pattern@.take(spec_prefix_end(pattern@)),
{
    let n = pattern.unicode_len();
    let mut m: usize = 0;
    while m < n && !is_glob_meta_char(pattern.get_char(m))
        invariant
            0 <= m <= n,
            n == pattern@.len(),
            forall|j: int| 0 <= j < m ==> !is_glob_meta(pattern@[j]),
        decreases n - m,
    {
        m = m + 1;
    }
    proof {
        lemma_first_meta(pattern@, m as int);
    }
    let mut cut: usize = 0;
    let mut j: usize = 0;
    let mut seen: bool = false;
    while j < m
        invariant
            0 <= j <= m,
            m <= n,
            n == pattern@.len(),
            seen ==> 0 < cut <= j && pattern@[cut as int - 1] == '/' && (forall|l: int|
                cut <= l < j ==> pattern@[l] != '/'),
            !seen ==> cut == 0 && (forall|l: int| 0 <= l < j ==> pattern@[l] != '/'),
        decreases m - j,
    {
        if pattern.get_char(j) == '/' {
            cut = j + 1;
            seen = true;
        }
        j = j + 1;
    }
    proof {
        if seen {
            assert(exists|l: int| 0 <= l < m && pattern@[l] == '/') by {
                assert(pattern@[cut as int - 1] == '/');
            }
            let w = choose|w: int|
                0 <= w < m && pattern@[w] == '/' && (forall|l: int| w < l < m ==> pattern@[l] != '/');
            assert(w == cut as int - 1) by {
                if w < cut as int - 1 {
                    assert(pattern@[cut as int - 1] != '/');
                } else if w > cut as int - 1 {
                    assert(pattern@[w] != '/');
                }
            }
        } else {
            if exists|l: int| 0 <= l < m && pattern@[l] == '/' {
                let l = choose|l: int| 0 <= l < m && pattern@[l] == '/';
                assert(pattern@[l] != '/');
            }
        }
        assert(spec_prefix_end(pattern@) == cut as int);
    }
    let pre = pattern.substring_char(0, cut);
    proof {
        assert(pattern@.subrange(0, cut as int) =~= pattern@.take(cut as int));
    }
    pre.to_owned()
}

/// Pins the loop's endpoint to `spec_first_meta`.
proof fn lemma_first_meta(s: Seq<char>, m: int)
    requires
        0 <= m <= s.len(),
        forall|j: int| 0 <= j < m ==> !is_glob_meta(s[j]),
        m == s.len() || is_glob_meta(s[m]),
    ensures
        spec_first_meta(s) == m,
    decreases m,
{
    if m == 0 {
    } else {
        assert(!is_glob_meta(s[0]));
        lemma_first_meta(s.drop_first(), m - 1);
    }
}

/// The identifier of a matched file: its path relative to the glob's fixed
/// prefix, or the path itself where the prefix does not lead it.
pub fn relative_id(path: &str, prefix: &str) -> (r: String)
    ensures
        prefix@.len() <= path@.len() && path@.take(prefix@.len() as int) == prefix@ ==> r@
            == path@.skip(prefix@.len() as int),
        !(prefix@.len() <= path@.len() && path@.take(prefix@.len() as int) == prefix@) ==> r@
            == path@,
{
    if str_starts_with(path, prefix) {
        let np = prefix.unicode_len();
        let n = path.unicode_len();
        let rest = path.substring_char(np, n);
        proof {
            assert(path@.subrange(np as int, n as int) =~= path@.skip(np as int));
        }
        rest.to_owned()
    } else {
        path.to_owned()
    }
}

/// Requires at least one matched template in glob mode: a glob that matches
/// nothing fails with `TemplateLoadError` before any output directory is
/// created.
pub fn validate_matches(pattern: &str, match_count: usize) -> (r: Result<(), Error>)
    ensures
        match_count > 0 <==> r is Ok,
        match_count == 0 ==> (r matches Err(Error::TemplateLoad { message }) && message@
            == "glob pattern matched no template file: "@ + pattern@),
{
    if match_count == 0 {
        let mut message = String::new();
        message.append("glob pattern matched no template file: ");
        message.append(pattern);
        proof {
            assert(message@ =~= "glob pattern matched no template file: "@ + pattern@);
        }
        Err(Error::TemplateLoad { message })
    } else {
        Ok(())
    }
}

/// The destination of one rendered template: the output directory and the
/// template's identifier, joined with `/` unless the directory is empty or
/// already ends with `/`.
pub open spec fn spec_output_path(out_dir: Seq<char>, id: Seq<char>) -> Seq<char> {
    if out_dir.len() == 0 {
        id
    } else if out_dir.last() == '/' {
        out_dir + id
    } else {
        out_dir + "/"@ + id
    }
}

/// Joins the output directory with a template identifier.
pub fn output_path(out_dir: &str, id: &str) -> (r: String)
    ensures
        r@ == spec_output_path(out_dir@, id@),
{
    let n = out_dir.unicode_len();
    if n == 0 {
        return id.to_owned();
    }
    let mut out = out_dir.to_owned();
    if out_dir.get_char(n - 1) != '/' {
        out.append("/");
    }
    out.append(id);
    proof {
        if out_dir@.last() == '/' {
            assert(out@ =~= spec_output_path(out_dir@, id@));
        } else {
            assert(out@ =~= spec_output_path(out_dir@, id@));
        }
    }
    out
}

} // verus!
