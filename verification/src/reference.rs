//! Registry references: the grammar, the parser and the parts of a reference.

use vstd::prelude::*;
use vstd::string::StrSliceExecFns;
use crate::error::CommandError;
use crate::text::text_of;

verus! {

/// The alphabets of the parts of a reference.
#[derive(Clone, Copy, Debug, PartialEq, Eq, Structural)]
pub enum CharClass {
    /// Host names and ports: letters, digits, `.`, `-` and `:`.
    Registry,
    /// Repository path segments: lower-case letters, digits, `.`, `_`, `-`.
    Segment,
    /// Tags: letters, digits, `_`, `.`, `-`.
    Tag,
    /// Digest algorithms: lower-case letters, digits, `+`, `.`, `_`, `-`.
    Algorithm,
    /// Encoded digests: letters, digits, `=`, `_`, `-`.
    Encoded,
}

/// The characters that end a part of a reference.
#[derive(Clone, Copy, Debug, PartialEq, Eq, Structural)]
pub enum Mark {
    /// `/`, which ends the registry.
    Slash,
    /// `:` or `@`, which ends the repository path.
    Version,
    /// `:`, which ends a digest's algorithm.
    Colon,
}

pub open spec fn is_lower(c: char) -> bool {
    'a' <= c <= 'z'
}

pub open spec fn is_upper(c: char) -> bool {
    'A' <= c <= 'Z'
}

pub open spec fn is_digit(c: char) -> bool {
    '0' <= c <= '9'
}

/// Whether `c` belongs to the alphabet `class`.
pub open spec fn allows(class: CharClass, c: char) -> bool {
    match class {
        CharClass::Registry => is_lower(c) || is_upper(c) || is_digit(c) || c == '.' || c == '-'
            || c == ':',
        CharClass::Segment => is_lower(c) || is_digit(c) || c == '.' || c == '_' || c == '-',
        CharClass::Tag => is_lower(c) || is_upper(c) || is_digit(c) || c == '_' || c == '.' || c
            == '-',
        CharClass::Algorithm => is_lower(c) || is_digit(c) || c == '+' || c == '.' || c == '_' || c
            == '-',
        CharClass::Encoded => is_lower(c) || is_upper(c) || is_digit(c) || c == '=' || c == '_' || c
            == '-',
    }
}

/// Whether `c` is one of the characters of `mark`.
pub open spec fn marks(mark: Mark, c: char) -> bool {
    match mark {
        Mark::Slash => c == '/',
        Mark::Version => c == ':' || c == '@',
        Mark::Colon => c == ':',
    }
}

/// The first position at or after `from` that holds a character of `mark`,
/// or the length of `s` if there is none.
pub open spec fn first_index(s: Seq<char>, from: int, mark: Mark) -> int
    decreases s.len() - from,
{
    if from < 0 || from >= s.len() {
        s.len() as int
    } else if marks(mark, s[from]) {
        from
    } else {
        first_index(s, from + 1, mark)
    }
}

/// Whether every character of `s` from `lo` up to `hi` belongs to `class`.
pub open spec fn all_in(s: Seq<char>, lo: int, hi: int, class: CharClass) -> bool {
    forall|i: int| lo <= i < hi ==> allows(class, #[trigger] s[i])
}

/// Whether position `i` fits a repository path that runs from `lo` up to `hi`:
/// a segment character, or a `/` with a segment character before it and some
/// character after it.
pub open spec fn path_ok_at(s: Seq<char>, lo: int, hi: int, i: int) -> bool {
    allows(CharClass::Segment, s[i]) || (s[i] == '/' && lo < i && i + 1 < hi && s[i - 1] != '/')
}

/// Whether `s` from `lo` up to `hi` is a repository path: one or more
/// non-empty segments separated by single `/`.
pub open spec fn is_path(s: Seq<char>, lo: int, hi: int) -> bool {
    &&& lo < hi
    &&& forall|i: int| lo <= i < hi ==> #[trigger] path_ok_at(s, lo, hi, i)
}

/// Whether what follows the mark at `split` is a tag (after `:`) or a digest
/// (after `@`, as algorithm, `:` and encoded value).
pub open spec fn is_version(s: Seq<char>, split: int) -> bool {
    if s[split] == ':' {
        &&& split + 1 < s.len()
        &&& all_in(s, split + 1, s.len() as int, CharClass::Tag)
    } else {
        let colon = first_index(s, split + 1, Mark::Colon);
        &&& split + 1 < colon
        &&& colon + 1 < s.len()
        &&& all_in(s, split + 1, colon, CharClass::Algorithm)
        &&& all_in(s, colon + 1, s.len() as int, CharClass::Encoded)
    }
}

/// Where the registry of `s` ends.
pub open spec fn registry_end(s: Seq<char>) -> int {
    first_index(s, 0, Mark::Slash)
}

/// Where the repository path of `s` ends.
pub open spec fn repository_end(s: Seq<char>) -> int {
    first_index(s, registry_end(s) + 1, Mark::Version)
}

/// The grammar of references: a registry, `/`, a repository path, and then
/// either `:` and a tag or `@` and a digest.
pub open spec fn is_reference(s: Seq<char>) -> bool {
    let slash = registry_end(s);
    let split = repository_end(s);
    &&& 0 < slash < s.len()
    &&& all_in(s, 0, slash, CharClass::Registry)
    &&& split < s.len()
    &&& is_path(s, slash + 1, split)
    &&& is_version(s, split)
}

/// The exec counterpart of [`allows`].
pub fn class_allows(class: CharClass, c: char) -> (allowed: bool)
    ensures
        allowed == allows(class, c),
{
    let lower = 'a' <= c && c <= 'z';
    let upper = 'A' <= c && c <= 'Z';
    let digit = '0' <= c && c <= '9';
    match class {
        CharClass::Registry => lower || upper || digit || c == '.' || c == '-' || c == ':',
        CharClass::Segment => lower || digit || c == '.' || c == '_' || c == '-',
        CharClass::Tag => lower || upper || digit || c == '_' || c == '.' || c == '-',
        CharClass::Algorithm => lower || digit || c == '+' || c == '.' || c == '_' || c == '-',
        CharClass::Encoded => lower || upper || digit || c == '=' || c == '_' || c == '-',
    }
}

/// The exec counterpart of [`marks`].
pub fn is_mark(mark: Mark, c: char) -> (marked: bool)
    ensures
        marked == marks(mark, c),
{
    match mark {
        Mark::Slash => c == '/',
        Mark::Version => c == ':' || c == '@',
        Mark::Colon => c == ':',
    }
}

/// Finds the first character of `mark` at or after `from`.
pub fn find_mark(s: &str, from: usize, mark: Mark) -> (at: usize)
    ensures
        at == first_index(s@, from as int, mark),
{
    let n = s.unicode_len();
    let mut i: usize = from;
    while i < n
        invariant
            n == s@.len(),
            from <= i,
            first_index(s@, from as int, mark) == first_index(s@, i as int, mark),
        decreases n - i,
    {
        if is_mark(mark, s.get_char(i)) {
            return i;
        }
        i = i + 1;
    }
    n
}

/// Checks that every character from `lo` up to `hi` belongs to `class`.
pub fn check_class(s: &str, lo: usize, hi: usize, class: CharClass) -> (ok: bool)
    requires
        hi <= s@.len(),
    ensures
        ok == all_in(s@, lo as int, hi as int, class),
{
    let mut i: usize = lo;
    while i < hi
        invariant
            hi <= s@.len(),
            lo <= i,
            all_in(s@, lo as int, i as int, class),
        decreases hi - i,
    {
        if !class_allows(class, s.get_char(i)) {
            return false;
        }
        i = i + 1;
    }
    true
}

/// Checks that `s` from `lo` up to `hi` is a repository path.
pub fn check_path(s: &str, lo: usize, hi: usize) -> (ok: bool)
    requires
        hi <= s@.len(),
    ensures
        ok == is_path(s@, lo as int, hi as int),
{
    if lo >= hi {
        return false;
    }
    let mut i: usize = lo;
    let mut after_slash: bool = true;
    while i < hi
        invariant
            lo < hi <= s@.len(),
            lo <= i <= hi,
            after_slash == (i == lo || s@[i - 1] == '/'),
            forall|j: int| lo <= j < i ==> #[trigger] path_ok_at(s@, lo as int, hi as int, j),
        decreases hi - i,
    {
        let c = s.get_char(i);
        if !class_allows(CharClass::Segment, c) {
            if c != '/' || after_slash || i + 1 >= hi {
                assert(!path_ok_at(s@, lo as int, hi as int, i as int));
                return false;
            }
            after_slash = true;
        } else {
            after_slash = false;
        }
        i = i + 1;
    }
    true
}

/// Where the last segment of the repository path of `s` begins: just after
/// the last `/` between `lo` and `hi`, or `lo` if there is none.
pub open spec fn segment_start(s: Seq<char>, lo: int, hi: int) -> int
    decreases hi - lo,
{
    if hi <= lo {
        lo
    } else if s[hi - 1] == '/' {
        hi
    } else {
        segment_start(s, lo, hi - 1)
    }
}

/// The registry host of the reference `s`, with the port number if one is
/// given.
pub open spec fn registry_of(s: Seq<char>) -> Seq<char> {
    s.subrange(0, registry_end(s))
}

/// The repository path of the reference `s`: namespace and name.
pub open spec fn repository_of(s: Seq<char>) -> Seq<char> {
    s.subrange(registry_end(s) + 1, repository_end(s))
}

/// Where the name of the reference `s` begins.
pub open spec fn name_start(s: Seq<char>) -> int {
    segment_start(s, registry_end(s) + 1, repository_end(s))
}

/// The namespace of the reference `s`: what stands in the repository path
/// before its last segment, if anything does.
pub open spec fn namespace_of(s: Seq<char>) -> Option<Seq<char>> {
    if name_start(s) == registry_end(s) + 1 {
        None
    } else {
        Some(s.subrange(registry_end(s) + 1, name_start(s) - 1))
    }
}

/// The name of the reference `s`: the last segment of its repository path.
pub open spec fn name_of(s: Seq<char>) -> Seq<char> {
    s.subrange(name_start(s), repository_end(s))
}

/// The tag of the reference `s`, if it names a tag.
pub open spec fn tag_of(s: Seq<char>) -> Option<Seq<char>> {
    if s[repository_end(s)] == ':' {
        Some(s.subrange(repository_end(s) + 1, s.len() as int))
    } else {
        None
    }
}

/// The digest of the reference `s`, if it names a digest.
pub open spec fn digest_of(s: Seq<char>) -> Option<Seq<char>> {
    if s[repository_end(s)] == ':' {
        None
    } else {
        Some(s.subrange(repository_end(s) + 1, s.len() as int))
    }
}

/// The identifier of an artifact in a registry.
///
/// A value of this type always holds a text that follows the grammar
/// [`is_reference`]; the text is the value's view. It never changes once parsed.
#[derive(Debug, PartialEq, Eq)]
pub struct Reference {
    text: String,
    slash: usize,
    split: usize,
}

impl View for Reference {
    type V = Seq<char>;

    closed spec fn view(&self) -> Seq<char> {
        self.text@
    }
}

impl Clone for Reference {
    fn clone(&self) -> (copy: Self)
        ensures
            copy@ == self@,
    {
        proof {
            use_type_invariant(self);
        }
        Reference { text: self.text.clone(), slash: self.slash, split: self.split }
    }
}

impl Reference {
    #[verifier::type_invariant]
    closed spec fn inv(&self) -> bool {
        &&& is_reference(self.text@)
        &&& self.slash == registry_end(self.text@)
        &&& self.split == repository_end(self.text@)
    }

    /// Reads a reference. Succeeds on exactly the texts of the grammar.
    pub fn parse(s: &str) -> (result: Result<Reference, CommandError>)
        ensures
            is_reference(s@) ==> (result matches Ok(r) && r@ == s@),
            !is_reference(s@) ==> result == Err::<Reference, CommandError>(
                CommandError::ReferenceParseError,
            ),
    {
        let n = s.unicode_len();
        let slash = find_mark(s, 0, Mark::Slash);
        if slash == 0 || slash >= n {
            return Err(CommandError::ReferenceParseError);
        }
        if !check_class(s, 0, slash, CharClass::Registry) {
            return Err(CommandError::ReferenceParseError);
        }
        let split = find_mark(s, slash + 1, Mark::Version);
        if split >= n {
            return Err(CommandError::ReferenceParseError);
        }
        if !check_path(s, slash + 1, split) {
            return Err(CommandError::ReferenceParseError);
        }
        let version_ok = if s.get_char(split) == ':' {
            split + 1 < n && check_class(s, split + 1, n, CharClass::Tag)
        } else {
            let colon = find_mark(s, split + 1, Mark::Colon);
            split + 1 < colon && colon < n && colon + 1 < n && check_class(
                s,
                split + 1,
                colon,
                CharClass::Algorithm,
            ) && check_class(s, colon + 1, n, CharClass::Encoded)
        };
        if !version_ok {
            return Err(CommandError::ReferenceParseError);
        }
        Ok(Reference { text: s.to_owned(), slash, split })
    }

    /// The text of the reference, as it was parsed.
    pub fn as_str(&self) -> (s: &str)
        ensures
            s@ == self@,
            is_reference(self@),
    {
        proof {
            use_type_invariant(self);
        }
        self.text.as_str()
    }

    /// The registry host, with the port number if one is given.
    pub fn registry(&self) -> (part: String)
        ensures
            part@ == registry_of(self@),
    {
        proof {
            use_type_invariant(self);
        }
        self.text.as_str().substring_char(0, self.slash).to_owned()
    }

    /// The repository path: namespace and name.
    pub fn repository(&self) -> (part: String)
        ensures
            part@ == repository_of(self@),
    {
        proof {
            use_type_invariant(self);
        }
        self.text.as_str().substring_char(self.slash + 1, self.split).to_owned()
    }

    fn find_name(&self) -> (at: usize)
        ensures
            at == name_start(self@),
            registry_end(self@) + 1 <= at <= repository_end(self@),
    {
        proof {
            use_type_invariant(self);
        }
        let s = self.text.as_str();
        let lo = self.slash + 1;
        let mut hi = self.split;
        while hi > lo
            invariant
                s@ == self@,
                lo == registry_end(self@) + 1,
                self.split == repository_end(self@),
                lo <= hi <= self.split < s@.len(),
                segment_start(s@, lo as int, self.split as int) == segment_start(
                    s@,
                    lo as int,
                    hi as int,
                ),
            decreases hi - lo,
        {
            if s.get_char(hi - 1) == '/' {
                return hi;
            }
            hi = hi - 1;
        }
        lo
    }

    /// The namespace: what stands before the name in the repository path.
    pub fn namespace(&self) -> (part: Option<String>)
        ensures
            text_of(part) == namespace_of(self@),
    {
        proof {
            use_type_invariant(self);
        }
        let at = self.find_name();
        if at == self.slash + 1 {
            None
        } else {
            Some(self.text.as_str().substring_char(self.slash + 1, at - 1).to_owned())
        }
    }

    /// The name: the last segment of the repository path.
    pub fn name(&self) -> (part: String)
        ensures
            part@ == name_of(self@),
    {
        proof {
            use_type_invariant(self);
        }
        let at = self.find_name();
        self.text.as_str().substring_char(at, self.split).to_owned()
    }

    /// The tag, if the reference names one.
    pub fn tag(&self) -> (part: Option<String>)
        ensures
            text_of(part) == tag_of(self@),
    {
        proof {
            use_type_invariant(self);
        }
        let s = self.text.as_str();
        let n = s.unicode_len();
        if s.get_char(self.split) == ':' {
            Some(s.substring_char(self.split + 1, n).to_owned())
        } else {
            None
        }
    }

    /// The digest, if the reference names one.
    pub fn digest(&self) -> (part: Option<String>)
        ensures
            text_of(part) == digest_of(self@),
    {
        proof {
            use_type_invariant(self);
        }
        let s = self.text.as_str();
        let n = s.unicode_len();
        if s.get_char(self.split) == ':' {
            None
        } else {
            Some(s.substring_char(self.split + 1, n).to_owned())
        }
    }
}

/// Whether every character of `text` has a code below 128.
pub open spec fn is_ascii_text(text: Seq<char>) -> bool {
    forall|i: int| 0 <= i < text.len() ==> 0 <= (#[trigger] text[i]) as int <= 127
}

/// What [`first_index`] finds: the first marked position, and nothing marked
/// before it.
pub proof fn lemma_first_index(s: Seq<char>, from: int, mark: Mark)
    requires
        0 <= from <= s.len(),
    ensures
        from <= first_index(s, from, mark) <= s.len(),
        first_index(s, from, mark) < s.len() ==> marks(mark, s[first_index(s, from, mark)]),
        forall|i: int| from <= i < first_index(s, from, mark) ==> !marks(mark, #[trigger] s[i]),
    decreases s.len() - from,
{
    if from < s.len() && !marks(mark, s[from]) {
        lemma_first_index(s, from + 1, mark);
    }
}

/// A reference is made of ASCII characters only.
pub proof fn lemma_reference_is_ascii(s: Seq<char>)
    requires
        is_reference(s),
    ensures
        is_ascii_text(s),
{
    let slash = registry_end(s);
    let split = repository_end(s);
    lemma_first_index(s, 0, Mark::Slash);
    lemma_first_index(s, slash + 1, Mark::Version);
    let colon = first_index(s, split + 1, Mark::Colon);
    lemma_first_index(s, split + 1, Mark::Colon);
    assert forall|i: int| 0 <= i < s.len() implies 0 <= (#[trigger] s[i]) as int <= 127 by {
        if i < slash {
            assert(allows(CharClass::Registry, s[i]));
        } else if i == slash {
        } else if i < split {
            assert(path_ok_at(s, slash + 1, split, i));
        } else if i == split {
        } else if s[split] == ':' {
            assert(allows(CharClass::Tag, s[i]));
        } else if i < colon {
            assert(allows(CharClass::Algorithm, s[i]));
        } else if i == colon {
        } else {
            assert(allows(CharClass::Encoded, s[i]));
        }
    }
}

} // verus!
