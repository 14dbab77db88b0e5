//! Format resolution: mapping an explicit override or a file extension to one
//! of the supported input formats.

use vstd::prelude::*;
use crate::error::Error;

verus! {

/// The data format of one input source.
#[derive(Debug, Copy, Clone, PartialEq, Eq, Structural)]
pub enum FileFormat {
    Json,
    Yaml,
    Toml,
}

/// Where a source's bytes come from: a file (with its extension, possibly
/// empty) or the process's standard input, which has no extension.
#[derive(Debug, Clone)]
pub enum SourceDescriptor {
    StandardInput,
    File { extension: String },
}

/// The characters `str::trim` removes at either end of a string.
pub open spec fn is_space(c: char) -> bool {
    ||| c == ' '
    ||| c == '\t'
    ||| c == '\n'
    ||| c == '\r'
    ||| c == '\u{0B}'
    ||| c == '\u{0C}'
    ||| c == '\u{85}'
    ||| c == '\u{A0}'
    ||| c == '\u{1680}'
    ||| (0x2000 <= c as u32 && c as u32 <= 0x200A)
    ||| c == '\u{2028}'
    ||| c == '\u{2029}'
    ||| c == '\u{202F}'
    ||| c == '\u{205F}'
    ||| c == '\u{3000}'
}

pub open spec fn spec_trim_front(s: Seq<char>) -> Seq<char>
    decreases s.len(),
{
    if s.len() > 0 && is_space(s[0]) {
        spec_trim_front(s.drop_first())
    } else {
        s
    }
}

pub open spec fn spec_trim_back(s: Seq<char>) -> Seq<char>
    decreases s.len(),
{
    if s.len() > 0 && is_space(s.last()) {
        spec_trim_back(s.drop_last())
    } else {
        s
    }
}

/// The string with leading and trailing whitespace removed.
pub open spec fn spec_trim(s: Seq<char>) -> Seq<char> {
    spec_trim_back(spec_trim_front(s))
}

/// Case-insensitive match of one character against a lower/upper case pair.
pub open spec fn ci_eq(c: char, lo: char, up: char) -> bool {
    c == lo || c == up
}

/// The format that a file extension names: the extension is trimmed and
/// compared case-insensitively against `json`, `yaml`, `yml` and `toml`.
pub open spec fn spec_ext_format(s: Seq<char>) -> Option<FileFormat> {
    let t = spec_trim(s);
    if t.len() == 4 && ci_eq(t[0], 'j', 'J') && ci_eq(t[1], 's', 'S') && ci_eq(t[2], 'o', 'O')
        && ci_eq(t[3], 'n', 'N') {
        Some(FileFormat::Json)
    } else if t.len() == 4 && ci_eq(t[0], 'y', 'Y') && ci_eq(t[1], 'a', 'A') && ci_eq(
        t[2],
        'm',
        'M',
    ) && ci_eq(t[3], 'l', 'L') {
        Some(FileFormat::Yaml)
    } else if t.len() == 3 && ci_eq(t[0], 'y', 'Y') && ci_eq(t[1], 'm', 'M') && ci_eq(
        t[2],
        'l',
        'L',
    ) {
        Some(FileFormat::Yaml)
    } else if t.len() == 4 && ci_eq(t[0], 't', 'T') && ci_eq(t[1], 'o', 'O') && ci_eq(
        t[2],
        'm',
        'M',
    ) && ci_eq(t[3], 'l', 'L') {
        Some(FileFormat::Toml)
    } else {
        None
    }
}

fn is_space_char(c: char) -> (r: bool)
    ensures
        r == is_space(c),
{
    c == ' ' || c == '\t' || c == '\n' || c == '\r' || c == '\u{0B}' || c == '\u{0C}' || c
        == '\u{85}' || c == '\u{A0}' || c == '\u{1680}' || (0x2000 <= c as u32 && c as u32
        <= 0x200A) || c == '\u{2028}' || c == '\u{2029}' || c == '\u{202F}' || c == '\u{205F}' || c
        == '\u{3000}'
}

proof fn lemma_trim_front_skip(s: Seq<char>, k: int)
    requires
        0 <= k <= s.len(),
        forall|j: int| 0 <= j < k ==> is_space(s[j]),
        k == s.len() || !is_space(s[k]),
    ensures
        spec_trim_front(s) == s.skip(k),
    decreases k,
{
    if k == 0 {
        assert(s.skip(0) =~= s);
    } else {
        assert(is_space(s[0]));
        lemma_trim_front_skip(s.drop_first(), k - 1);
        assert(s.drop_first().skip(k - 1) =~= s.skip(k));
    }
}

proof fn lemma_trim_back_take(s: Seq<char>, k: int)
    requires
        0 <= k <= s.len(),
        forall|j: int| k <= j < s.len() ==> is_space(s[j]),
        k == 0 || !is_space(s[k - 1]),
    ensures
        spec_trim_back(s) == s.take(k),
    decreases s.len() - k,
{
    if k == s.len() {
        if s.len() > 0 && is_space(s.last()) {
            assert(!is_space(s[k - 1]));
            assert(false);
        }
        assert(s.take(k) =~= s);
    } else {
        assert(is_space(s.last()));
        lemma_trim_back_take(s.drop_last(), k);
        assert(s.drop_last().take(k) =~= s.take(k));
    }
}

/// True when the character at `i` is `lo` in either case; `lo` and `up` are
/// the two cases of one ASCII letter.
fn char_ci_at(s: &str, i: usize, lo: char, up: char) -> (r: bool)
    requires
        i < s@.len(),
    ensures
        r == ci_eq(s@[i as int], lo, up),
{
    let c = s.get_char(i);
    c == lo || c == up
}

impl FileFormat {
    /// The upper-case name of the format, as it appears in diagnostics.
    pub fn name(&self) -> (r: &'static str)
        ensures
            r@ == spec_format_name(*self),
    {
        match self {
            FileFormat::Json => "JSON",
            FileFormat::Yaml => "YAML",
            FileFormat::Toml => "TOML",
        }
    }

    /// Maps a file extension to its format: `json`, `yaml`/`yml` and `toml`,
    /// case-insensitively and ignoring surrounding whitespace. Any other
    /// extension (including an empty one) is unsupported.
    pub fn from_ext(s: &str) -> (r: Result<Self, Error>)
        ensures
            spec_ext_format(s@) is Some ==> r == Ok::<FileFormat, Error>(
                spec_ext_format(s@)->Some_0,
            ),
            spec_ext_format(s@) is None ==> (r matches Err(Error::UnsupportedExtension(e))
                && e@ == s@),
    {
        let n = s.unicode_len();
        let mut start: usize = 0;
        while start < n && is_space_char(s.get_char(start))
            invariant
                0 <= start <= n,
                n == s@.len(),
                forall|j: int| 0 <= j < start ==> is_space(s@[j]),
            decreases n - start,
        {
            start = start + 1;
        }
        let mut end: usize = n;
        while end > start && is_space_char(s.get_char(end - 1))
            invariant
                start <= end <= n,
                n == s@.len(),
                forall|j: int| end <= j < n ==> is_space(s@[j]),
            decreases end,
        {
            end = end - 1;
        }
        proof {
            lemma_trim_front_skip(s@, start as int);
            lemma_trim_back_take(s@.skip(start as int), end - start);
            assert(s@.skip(start as int).take(end - start) =~= s@.subrange(
                start as int,
                end as int,
            ));
            assert(spec_trim(s@) == s@.subrange(start as int, end as int));
        }
        let ghost t = spec_trim(s@);
        let len = end - start;
        if len == 4 && char_ci_at(s, start, 'j', 'J') && char_ci_at(s, start + 1, 's', 'S')
            && char_ci_at(s, start + 2, 'o', 'O') && char_ci_at(s, start + 3, 'n', 'N') {
            Ok(FileFormat::Json)
        } else if len == 4 && char_ci_at(s, start, 'y', 'Y') && char_ci_at(s, start + 1, 'a', 'A')
            && char_ci_at(s, start + 2, 'm', 'M') && char_ci_at(s, start + 3, 'l', 'L') {
            Ok(FileFormat::Yaml)
        } else if len == 3 && char_ci_at(s, start, 'y', 'Y') && char_ci_at(s, start + 1, 'm', 'M')
            && char_ci_at(s, start + 2, 'l', 'L') {
            Ok(FileFormat::Yaml)
        } else if len == 4 && char_ci_at(s, start, 't', 'T') && char_ci_at(s, start + 1, 'o', 'O')
            && char_ci_at(s, start + 2, 'm', 'M') && char_ci_at(s, start + 3, 'l', 'L') {
            Ok(FileFormat::Toml)
        } else {
            Err(Error::UnsupportedExtension(s.to_owned()))
        }
    }
}

/// The name of the format as a sequence of characters.
pub open spec fn spec_format_name(f: FileFormat) -> Seq<char> {
    match f {
        FileFormat::Json => "JSON"@,
        FileFormat::Yaml => "YAML"@,
        FileFormat::Toml => "TOML"@,
    }
}

/// What `resolve_format` returns, stated over the inputs alone: an explicit
/// format always wins; a standard-input source with no explicit format is
/// rejected; a file's extension decides otherwise.
pub open spec fn resolve_ok(explicit: Option<FileFormat>, descriptor: SourceDescriptor) -> bool {
    match explicit {
        Some(_) => true,
        None => match descriptor {
            SourceDescriptor::StandardInput => false,
            SourceDescriptor::File { extension } => spec_ext_format(extension@) is Some,
        },
    }
}

pub open spec fn resolved_format(
    explicit: Option<FileFormat>,
    descriptor: SourceDescriptor,
) -> FileFormat
    recommends
        resolve_ok(explicit, descriptor),
{
    match explicit {
        Some(f) => f,
        None => match descriptor {
            SourceDescriptor::StandardInput => FileFormat::Json,  // unreachable under resolve_ok
            SourceDescriptor::File { extension } => spec_ext_format(extension@)->Some_0,
        },
    }
}

/// Resolves the format of one source. An explicit format always wins, even
/// against a contradicting extension; a standard-input source with no
/// explicit format fails with `FormatRequired` before anything is read.
pub fn resolve_format(explicit: Option<FileFormat>, descriptor: &SourceDescriptor) -> (r: Result<
    FileFormat,
    Error,
>)
    ensures
        resolve_ok(explicit, *descriptor) ==> r == Ok::<FileFormat, Error>(
            resolved_format(explicit, *descriptor),
        ),
        !resolve_ok(explicit, *descriptor) ==> match *descriptor {
            SourceDescriptor::StandardInput => r == Err::<FileFormat, Error>(
                Error::FormatRequired,
            ),
            SourceDescriptor::File { extension } => (r matches Err(
                Error::UnsupportedExtension(e),
            ) && e@ == extension@),
        },
{
    match explicit {
        Some(f) => Ok(f),
        None => match descriptor {
            SourceDescriptor::StandardInput => Err(Error::FormatRequired),
            SourceDescriptor::File { extension } => FileFormat::from_ext(extension.as_str()),
        },
    }
}

/// Resolves the format of every source, in order, failing fast on the first
/// source whose format cannot be resolved.
pub fn plan_sources(descriptors: &Vec<SourceDescriptor>, explicit: Option<FileFormat>) -> (r:
    Result<Vec<FileFormat>, Error>)
    ensures
        r is Ok <==> (forall|i: int|
            0 <= i < descriptors@.len() ==> resolve_ok(explicit, descriptors@[i])),
        r matches Ok(fs) ==> fs@.len() == descriptors@.len() && (forall|i: int|
            0 <= i < descriptors@.len() ==> fs@[i] == resolved_format(
                explicit,
                descriptors@[i],
            )),
        r matches Err(e) ==> exists|i: int|
            0 <= i < descriptors@.len() && !resolve_ok(explicit, descriptors@[i]) && (forall|
                j: int,
            |
                0 <= j < i ==> resolve_ok(explicit, descriptors@[j])) && (match descriptors@[i] {
                SourceDescriptor::StandardInput => e == Error::FormatRequired,
                SourceDescriptor::File { extension } => (e matches Error::UnsupportedExtension(x)
                    && x@ == extension@),
            }),
{
    let mut formats: Vec<FileFormat> = Vec::new();
    let mut i: usize = 0;
    while i < descriptors.len()
        invariant
            0 <= i <= descriptors@.len(),
            formats@.len() == i,
            forall|j: int| 0 <= j < i ==> resolve_ok(explicit, descriptors@[j]),
            forall|j: int| 0 <= j < i ==> formats@[j] == resolved_format(explicit, descriptors@[j]),
        decreases descriptors@.len() - i,
    {
        match resolve_format(explicit, &descriptors[i]) {
            Ok(f) => formats.push(f),
            Err(e) => {
                return Err(e);
            },
        }
        i = i + 1;
    }
    Ok(formats)
}

} // verus!
