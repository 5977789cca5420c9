//! Semantic version numbers.

use vstd::prelude::*;
use vstd::string::StringExecFns;
use crate::text::{decimal, push_decimal};

verus! {

/// An identifier held a character that is not allowed, or none at all.
#[derive(Debug, Clone, Copy, PartialEq, Eq, Structural)]
pub struct ParseError;

impl ParseError {
    /// What went wrong, in words.
    pub fn to_string(&self) -> (text: String)
        ensures
            text@ == "invalid identifiers (allowed are [0-9A-Za-z-])"@,
    {
        String::from_str("invalid identifiers (allowed are [0-9A-Za-z-])")
    }
}

/// Whether `c` may stand in an identifier: an ASCII digit, an ASCII letter
/// or a hyphen.
pub open spec fn identifier_char(c: char) -> bool {
    ('0' <= c && c <= '9') || ('A' <= c && c <= 'Z') || ('a' <= c && c <= 'z') || c == '-'
}

/// Whether `text` is an identifier: at least one character, and allowed
/// characters only.
pub open spec fn identifier(text: Seq<char>) -> bool {
    text.len() > 0 && forall|i: int| 0 <= i < text.len() ==> identifier_char(#[trigger] text[i])
}

/// Whether `c` may stand in an identifier.
pub fn is_identifier_char(c: char) -> (allowed: bool)
    ensures
        allowed == identifier_char(c),
{
    ('0' <= c && c <= '9') || ('A' <= c && c <= 'Z') || ('a' <= c && c <= 'z') || c == '-'
}

/// Whether `text` is an identifier.
pub fn is_identifier(text: &str) -> (valid: bool)
    ensures
        valid == identifier(text@),
{
    let mut allowed = true;
    let mut any = false;
    for c in it: text.chars()
        invariant
            it.seq() == text@,
            any == (it.index() > 0),
            allowed == forall|i: int| 0 <= i < it.index() ==> identifier_char(#[trigger] text@[i]),
    {
        any = true;
        if !is_identifier_char(c) {
            allowed = false;
        }
    }
    any && allowed
}

/// The identifiers of `list`, joined by dots.
pub open spec fn dotted(list: Seq<Seq<char>>) -> Seq<char>
    decreases list.len(),
{
    if list.len() == 0 {
        Seq::empty()
    } else if list.len() == 1 {
        list[0]
    } else {
        dotted(list.drop_last()) + "."@ + list.last()
    }
}

/// A version as a mathematical value.
pub struct SemVerView {
    pub major: u32,
    pub minor: u32,
    pub patch: u32,
    pub pre_release: Seq<Seq<char>>,
    pub build_metadata: Seq<Seq<char>>,
}

impl SemVerView {
    /// The version as text: the three numbers joined by dots, then a hyphen
    /// and the pre-release identifiers and a plus sign and the build
    /// identifiers, each where there are any.
    pub open spec fn text(self) -> Seq<char> {
        decimal(self.major as nat) + "."@ + decimal(self.minor as nat) + "."@ + decimal(
            self.patch as nat,
        ) + (if self.pre_release.len() > 0 {
            "-"@
        } else {
            Seq::empty()
        }) + dotted(self.pre_release) + (if self.build_metadata.len() > 0 {
            "+"@
        } else {
            Seq::empty()
        }) + dotted(self.build_metadata)
    }

    /// Every identifier of the version is well formed.
    pub open spec fn wf(self) -> bool {
        &&& forall|i: int|
            0 <= i < self.pre_release.len() ==> identifier(#[trigger] self.pre_release[i])
        &&& forall|i: int|
            0 <= i < self.build_metadata.len() ==> identifier(#[trigger] self.build_metadata[i])
    }
}

/// The texts of a list of strings.
pub open spec fn texts(list: Seq<String>) -> Seq<Seq<char>> {
    Seq::new(list.len(), |i: int| list[i]@)
}

/// A version number with its pre-release and build identifiers.
pub struct SemVer {
    major: u32,
    minor: u32,
    patch: u32,
    pre_release: Vec<String>,
    build_metadata: Vec<String>,
}

impl View for SemVer {
    type V = SemVerView;

    closed spec fn view(&self) -> SemVerView {
        SemVerView {
            major: self.major,
            minor: self.minor,
            patch: self.patch,
            pre_release: texts(self.pre_release@),
            build_metadata: texts(self.build_metadata@),
        }
    }
}

impl SemVer {
    /// The version `major.minor.patch`, without further identifiers.
    pub fn new(major: u32, minor: u32, patch: u32) -> (version: SemVer)
        ensures
            version@ == (SemVerView {
                major,
                minor,
                patch,
                pre_release: Seq::empty(),
                build_metadata: Seq::empty(),
            }),
            version@.wf(),
    {
        let version = SemVer {
            major,
            minor,
            patch,
            pre_release: Vec::new(),
            build_metadata: Vec::new(),
        };
        assert(version@.pre_release =~= Seq::empty());
        assert(version@.build_metadata =~= Seq::empty());
        version
    }

    pub fn major(&self) -> (major: u32)
        ensures
            major == self@.major,
    {
        self.major
    }

    pub fn minor(&self) -> (minor: u32)
        ensures
            minor == self@.minor,
    {
        self.minor
    }

    pub fn patch(&self) -> (patch: u32)
        ensures
            patch == self@.patch,
    {
        self.patch
    }

    /// The pre-release identifiers.
    pub fn pre_release(&self) -> (list: &[String])
        ensures
            texts(list@) == self@.pre_release,
    {
        self.pre_release.as_slice()
    }

    /// The build identifiers.
    pub fn build_metadata(&self) -> (list: &[String])
        ensures
            texts(list@) == self@.build_metadata,
    {
        self.build_metadata.as_slice()
    }

    /// Appends a pre-release identifier, or refuses it when it is not well
    /// formed.
    pub fn add_pre_release(&mut self, pre_release: String) -> (outcome: Result<(), ParseError>)
        ensures
            outcome is Ok <==> identifier(pre_release@),
            outcome is Ok ==> final(self)@ == (SemVerView {
                pre_release: old(self)@.pre_release.push(pre_release@),
                ..old(self)@
            }),
            outcome is Err ==> final(self)@ == old(self)@,
            old(self)@.wf() ==> final(self)@.wf(),
    {
        if !is_identifier(pre_release.as_str()) {
            Err(ParseError)
        } else {
            self.pre_release.push(pre_release);
            assert(self@.pre_release =~= old(self)@.pre_release.push(pre_release@));
            Ok(())
        }
    }

    /// Appends a build identifier, or refuses it when it is not well formed.
    pub fn add_build_metadata(&mut self, build_metadata: String) -> (outcome: Result<
        (),
        ParseError,
    >)
        ensures
            outcome is Ok <==> identifier(build_metadata@),
            outcome is Ok ==> final(self)@ == (SemVerView {
                build_metadata: old(self)@.build_metadata.push(build_metadata@),
                ..old(self)@
            }),
            outcome is Err ==> final(self)@ == old(self)@,
            old(self)@.wf() ==> final(self)@.wf(),
    {
        if !is_identifier(build_metadata.as_str()) {
            Err(ParseError)
        } else {
            self.build_metadata.push(build_metadata);
            assert(self@.build_metadata =~= old(self)@.build_metadata.push(build_metadata@));
            Ok(())
        }
    }

    /// Appends the identifiers of `list`, joined by dots.
    fn fmt_list(out: &mut String, list: &[String])
        ensures
            final(out)@ == old(out)@ + dotted(texts(list@)),
    {
        let n = list.len();
        let mut i: usize = 0;
        assert(texts(list@).take(0) =~= Seq::empty());
        assert(old(out)@ + dotted(texts(list@).take(0)) =~= old(out)@);
        while i < n
            invariant
                0 <= i <= n,
                n == list@.len(),
                out@ == old(out)@ + dotted(texts(list@).take(i as int)),
            decreases n - i,
        {
            if i > 0 {
                out.append(".");
            }
            out.append(list[i].as_str());
            proof {
                let done = texts(list@).take(i as int);
                let next = texts(list@).take(i + 1);
                assert(next.drop_last() =~= done);
                assert(next.last() == list@[i as int]@);
                assert(out@ =~= old(out)@ + dotted(next));
            }
            i += 1;
        }
        assert(texts(list@).take(n as int) =~= texts(list@));
    }

    /// Appends a hyphen and the pre-release identifiers, if there are any.
    fn fmt_pre_release(&self, out: &mut String)
        ensures
            final(out)@ == old(out)@ + (if self@.pre_release.len() > 0 {
                "-"@
            } else {
                Seq::empty()
            }) + dotted(self@.pre_release),
    {
        if self.pre_release.len() > 0 {
            out.append("-");
        }
        SemVer::fmt_list(out, self.pre_release.as_slice());
        assert(out@ =~= old(out)@ + (if self@.pre_release.len() > 0 {
            "-"@
        } else {
            Seq::empty()
        }) + dotted(self@.pre_release));
    }

    /// Appends a plus sign and the build identifiers, if there are any.
    fn fmt_build_metadata(&self, out: &mut String)
        ensures
            final(out)@ == old(out)@ + (if self@.build_metadata.len() > 0 {
                "+"@
            } else {
                Seq::empty()
            }) + dotted(self@.build_metadata),
    {
        if self.build_metadata.len() > 0 {
            out.append("+");
        }
        SemVer::fmt_list(out, self.build_metadata.as_slice());
        assert(out@ =~= old(out)@ + (if self@.build_metadata.len() > 0 {
            "+"@
        } else {
            Seq::empty()
        }) + dotted(self@.build_metadata));
    }

    /// The version as text.
    pub fn to_string(&self) -> (text: String)
        ensures
            text@ == self@.text(),
    {
        let mut text = String::new();
        push_decimal(&mut text, self.major as u64);
        text.append(".");
        push_decimal(&mut text, self.minor as u64);
        text.append(".");
        push_decimal(&mut text, self.patch as u64);
        self.fmt_pre_release(&mut text);
        self.fmt_build_metadata(&mut text);
        assert(text@ =~= self@.text());
        text
    }
}

} // verus!
