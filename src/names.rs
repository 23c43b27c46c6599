use vstd::prelude::*;

verus! {

/// The two on-disk encodings, told apart only by the file name's suffix.
#[derive(Clone, Copy, Debug, PartialEq, Eq, Structural)]
pub enum Format {
    Json,
    Binary,
}

impl Format {
    pub open spec fn suffix_spec(self) -> Seq<char> {
        match self {
            Format::Json => seq!['.', 'j', 's', 'o', 'n'],
            Format::Binary => seq!['.', 'b', 'i', 'n'],
        }
    }

    /// The suffix that a file in this format carries.
    pub fn suffix(self) -> (r: &'static str)
        ensures
            r@ == self.suffix_spec(),
    {
        match self {
            Format::Json => {
                proof {
                    reveal_strlit(".json");
                }
                let r = ".json";
                assert(r@ =~= self.suffix_spec());
                r
            },
            Format::Binary => {
                proof {
                    reveal_strlit(".bin");
                }
                let r = ".bin";
                assert(r@ =~= self.suffix_spec());
                r
            },
        }
    }
}

pub open spec fn has_suffix(s: Seq<char>, suffix: Seq<char>) -> bool {
    suffix.len() <= s.len() && s.subrange(s.len() - suffix.len(), s.len() as int) == suffix
}

/// The format that a file name's suffix selects, if any.
pub open spec fn format_of(name: Seq<char>) -> Option<Format> {
    if has_suffix(name, Format::Json.suffix_spec()) {
        Some(Format::Json)
    } else if has_suffix(name, Format::Binary.suffix_spec()) {
        Some(Format::Binary)
    } else {
        None
    }
}

/// A hidden entry is one whose name begins with a dot.
pub open spec fn is_hidden_spec(name: Seq<char>) -> bool {
    name.len() > 0 && name[0] == '.'
}

/// The index of the last dot in `s`, or -1 if there is none.
pub open spec fn last_dot(s: Seq<char>) -> int
    decreases s.len(),
{
    if s.len() == 0 {
        -1
    } else if s.last() == '.' {
        s.len() - 1
    } else {
        last_dot(s.drop_last())
    }
}

/// A file name without its extension: everything before the last dot, unless that dot is
/// the first character (or there is none), in which case the whole name.
pub open spec fn stem_of(name: Seq<char>) -> Seq<char> {
    if last_dot(name) > 0 {
        name.subrange(0, last_dot(name))
    } else {
        name
    }
}

pub fn ends_with(s: &str, suffix: &str) -> (r: bool)
    ensures
        r == has_suffix(s@, suffix@),
{
    let n = s.unicode_len();
    let m = suffix.unicode_len();
    if m > n {
        return false;
    }
    let start: usize = n - m;
    let mut j: usize = 0;
    while j < m
        invariant
            n == s@.len(),
            m == suffix@.len(),
            m <= n,
            start == n - m,
            j <= m,
            forall|k: int| 0 <= k < j ==> s@[start + k] == suffix@[k],
        decreases m - j,
    {
        if s.get_char(start + j) != suffix.get_char(j) {
            assert(s@.subrange(start as int, n as int)[j as int] != suffix@[j as int]);
            return false;
        }
        j = j + 1;
    }
    assert(s@.subrange(start as int, n as int) =~= suffix@);
    true
}

/// Whether `path` carries the suffix of `format`.
pub fn has_format_suffix(path: &str, format: Format) -> (r: bool)
    ensures
        r == has_suffix(path@, format.suffix_spec()),
{
    ends_with(path, format.suffix())
}

/// The format a file name's suffix selects: `.json` for the text format, `.bin` for binary.
pub fn format_of_name(name: &str) -> (r: Option<Format>)
    ensures
        r == format_of(name@),
{
    if has_format_suffix(name, Format::Json) {
        Some(Format::Json)
    } else if has_format_suffix(name, Format::Binary) {
        Some(Format::Binary)
    } else {
        None
    }
}

pub fn is_hidden(name: &str) -> (r: bool)
    ensures
        r == is_hidden_spec(name@),
{
    name.unicode_len() > 0 && name.get_char(0) == '.'
}

/// The key that a directory entry is stored under: its name without the extension.
pub fn file_stem(name: &str) -> (r: String)
    ensures
        r@ == stem_of(name@),
{
    let n = name.unicode_len();
    let mut i: usize = n;
    assert(name@.subrange(0, n as int) =~= name@);
    while i > 0
        invariant
            n == name@.len(),
            i <= n,
            last_dot(name@) == last_dot(name@.subrange(0, i as int)),
        decreases i,
    {
        let ghost pre = name@.subrange(0, i as int);
        if name.get_char(i - 1) == '.' {
            assert(pre.last() == '.');
            if i - 1 > 0 {
                return String::from_str(name.substring_char(0, i - 1));
            } else {
                return String::from_str(name);
            }
        }
        assert(pre.drop_last() =~= name@.subrange(0, i - 1));
        i = i - 1;
    }
    assert(name@.subrange(0, 0) =~= Seq::<char>::empty());
    String::from_str(name)
}

} // verus!
