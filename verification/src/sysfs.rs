//! Devices as the kernel's device tree shows them: one directory for each
//! device, one text file for each attribute.

use vstd::prelude::*;
use crate::text::{join, join_path, parse_number, parse_unsigned, trim, trimmed};

verus! {

/// Why a file could not be read.
#[derive(Clone, Debug, PartialEq, Eq)]
pub enum IoFailure {
    /// The directory has no file of that name.
    Missing,
    /// The system refused the read.
    Unreadable { code: Option<i32>, message: String },
}

/// A read failure as a mathematical value.
pub enum IoFailureView {
    Missing,
    Unreadable { code: Option<i32>, message: Seq<char> },
}

impl View for IoFailure {
    type V = IoFailureView;

    open spec fn view(&self) -> IoFailureView {
        match *self {
            IoFailure::Missing => IoFailureView::Missing,
            IoFailure::Unreadable { code, message } => IoFailureView::Unreadable {
                code,
                message: message@,
            },
        }
    }
}

impl IoFailure {
    /// A copy of the failure.
    pub fn duplicate(&self) -> (r: IoFailure)
        ensures
            r@ == self@,
    {
        match self {
            IoFailure::Missing => IoFailure::Missing,
            IoFailure::Unreadable { code, message } => IoFailure::Unreadable {
                code: *code,
                message: message.clone(),
            },
        }
    }
}

/// What reading a file gave.
#[derive(Clone, Debug, PartialEq, Eq)]
pub enum ReadOutcome {
    /// The text of the file, as it stands there.
    Text(String),
    /// The read failed.
    Failed(IoFailure),
}

/// One file of a directory, with what reading it gave.
#[derive(Clone, Debug)]
pub struct SysfsAttr {
    pub name: String,
    pub content: ReadOutcome,
}

/// One entry of a directory of the device tree, as it stood when it was
/// read.
#[derive(Clone, Debug)]
pub struct SysfsEntry {
    /// The path of the entry.
    pub path: String,
    /// The name under which its directory lists it.
    pub name: String,
    /// Whether its directory lists it as a directory.
    pub is_dir: bool,
    /// The attribute files in it.
    pub attrs: Vec<SysfsAttr>,
}

/// The place of one device in the device tree: its own entry, and the
/// entries that its directory lists.
#[derive(Clone, Debug)]
pub struct SysfsPath {
    pub node: SysfsEntry,
    pub entries: Vec<SysfsEntry>,
}

/// The first attribute of the list with the name `name`.
pub open spec fn find_attr(attrs: Seq<SysfsAttr>, name: Seq<char>) -> Option<SysfsAttr>
    decreases attrs.len(),
{
    if attrs.len() == 0 {
        None
    } else if attrs[0].name@ == name {
        Some(attrs[0])
    } else {
        find_attr(attrs.drop_first(), name)
    }
}

/// What went wrong with an attribute.
#[derive(Debug, PartialEq, Eq)]
pub enum SysfsErrorKind {
    /// The file could not be read.
    Io(IoFailure),
    /// The file was read and its text, kept here as it stood in the file,
    /// is no value of the kind that was asked for.
    Parse(String),
}

/// An attribute that could not be had: the path of its file, and what went
/// wrong.
#[derive(Debug, PartialEq, Eq)]
pub struct SysfsError(pub String, pub SysfsErrorKind);

/// What went wrong with an attribute, as a mathematical value.
pub enum SysfsErrorKindView {
    Io(IoFailureView),
    Parse(Seq<char>),
}

/// An attribute failure as a mathematical value.
pub struct SysfsErrorView {
    pub path: Seq<char>,
    pub kind: SysfsErrorKindView,
}

impl View for SysfsError {
    type V = SysfsErrorView;

    open spec fn view(&self) -> SysfsErrorView {
        SysfsErrorView {
            path: self.0@,
            kind: match self.1 {
                SysfsErrorKind::Io(failure) => SysfsErrorKindView::Io(failure@),
                SysfsErrorKind::Parse(text) => SysfsErrorKindView::Parse(text@),
            },
        }
    }
}

/// What the standard `Debug` formatting of strings writes for `s`: the
/// text between double quotes, with escapes.
pub uninterp spec fn debug_quoted(s: Seq<char>) -> Seq<char>;

/// The standard `Debug` formatting of a string, `<str as Debug>::fmt`,
/// reached through `format!`: the result is the text that it writes.
#[verifier::external_body]
fn debug_quote(s: &str) -> (r: String)
    ensures
        r@ == debug_quoted(s@),
{
    format!("{:?}", s)
}

/// What is said of a read failure.
pub open spec fn failure_text(failure: IoFailureView) -> Seq<char> {
    match failure {
        IoFailureView::Missing => "No such file or directory (os error 2)"@,
        IoFailureView::Unreadable { code, message } => message,
    }
}

/// What is said of an attribute failure, where `quoted` is the text that
/// would not parse, without the whitespace around it and quoted.
pub open spec fn error_text(e: SysfsErrorView, quoted: Seq<char>) -> Seq<char> {
    "failed to read sysfs attribute "@ + e.path + ": "@ + match e.kind {
        SysfsErrorKindView::Io(failure) => failure_text(failure),
        SysfsErrorKindView::Parse(_) => "couldn't parse value "@ + quoted,
    }
}

impl SysfsError {
    /// The message of the failure, given the quoted form of the text that
    /// would not parse.
    pub fn describe(&self, quoted: &str) -> (r: String)
        ensures
            r@ == error_text(self@, quoted@),
    {
        let mut out = String::from_str("failed to read sysfs attribute ");
        out.append(self.0.as_str());
        out.append(": ");
        match &self.1 {
            SysfsErrorKind::Io(IoFailure::Missing) => {
                out.append("No such file or directory (os error 2)");
            },
            SysfsErrorKind::Io(IoFailure::Unreadable { code, message }) => {
                out.append(message.as_str());
            },
            SysfsErrorKind::Parse(_) => {
                out.append("couldn't parse value ");
                out.append(quoted);
            },
        }
        assert(out@ =~= error_text(self@, quoted@));
        out
    }

    /// The message of the failure: which attribute it was, and what the
    /// system said or which text would not parse.
    pub fn message(&self) -> (r: String)
        ensures
            r@ == error_text(
                self@,
                match self@.kind {
                    SysfsErrorKindView::Io(_) => Seq::empty(),
                    SysfsErrorKindView::Parse(text) => debug_quoted(trim(text)),
                },
            ),
    {
        match &self.1 {
            SysfsErrorKind::Io(_) => self.describe(""),
            SysfsErrorKind::Parse(text) => {
                let quoted = debug_quote(trimmed(text.as_str()));
                self.describe(quoted.as_str())
            },
        }
    }

    /// The read failure behind this failure, where there is one.
    pub fn source(&self) -> (r: Option<&IoFailure>)
        ensures
            match self.1 {
                SysfsErrorKind::Io(failure) => r == Some(&failure),
                SysfsErrorKind::Parse(_) => r is None,
            },
    {
        match &self.1 {
            SysfsErrorKind::Io(failure) => Some(failure),
            SysfsErrorKind::Parse(_) => None,
        }
    }
}

/// A value that an attribute's text can write in the plain grammar: a
/// number in decimal, or the text itself.
pub trait FromAttrStr: Sized + View {
    /// The value that `s` writes, if it writes one.
    spec fn parse_spec(s: Seq<char>) -> Option<Self::V>;

    /// Reads a value from `s`.
    fn from_attr_str(s: &str) -> (r: Option<Self>)
        ensures
            match r {
                Some(v) => Self::parse_spec(s@) == Some(v@),
                None => Self::parse_spec(s@) is None,
            },
    ;
}

/// A number that an attribute's text can write in hexadecimal.
pub trait FromHexStr: Sized + View {
    /// The number that `s` writes in hexadecimal, if it writes one.
    spec fn parse_hex_spec(s: Seq<char>) -> Option<Self::V>;

    /// Reads a hexadecimal number from `s`.
    fn from_hex_str(s: &str) -> (r: Option<Self>)
        ensures
            match r {
                Some(v) => Self::parse_hex_spec(s@) == Some(v@),
                None => Self::parse_hex_spec(s@) is None,
            },
    ;
}

impl FromAttrStr for u8 {
    open spec fn parse_spec(s: Seq<char>) -> Option<u8> {
        match parse_unsigned(s, 10, 0xFF) {
            Some(v) => Some(v as u8),
            None => None,
        }
    }

    fn from_attr_str(s: &str) -> (r: Option<u8>) {
        match parse_number(s, 10, 0xFF) {
            Some(v) => Some(v as u8),
            None => None,
        }
    }
}

impl FromAttrStr for u16 {
    open spec fn parse_spec(s: Seq<char>) -> Option<u16> {
        match parse_unsigned(s, 10, 0xFFFF) {
            Some(v) => Some(v as u16),
            None => None,
        }
    }

    fn from_attr_str(s: &str) -> (r: Option<u16>) {
        match parse_number(s, 10, 0xFFFF) {
            Some(v) => Some(v as u16),
            None => None,
        }
    }
}

impl FromAttrStr for String {
    open spec fn parse_spec(s: Seq<char>) -> Option<Seq<char>> {
        Some(s)
    }

    fn from_attr_str(s: &str) -> (r: Option<String>) {
        Some(String::from_str(s))
    }
}

impl FromHexStr for u8 {
    open spec fn parse_hex_spec(s: Seq<char>) -> Option<u8> {
        match parse_unsigned(s, 16, 0xFF) {
            Some(v) => Some(v as u8),
            None => None,
        }
    }

    fn from_hex_str(s: &str) -> (r: Option<u8>) {
        match parse_number(s, 16, 0xFF) {
            Some(v) => Some(v as u8),
            None => None,
        }
    }
}

impl FromHexStr for u16 {
    open spec fn parse_hex_spec(s: Seq<char>) -> Option<u16> {
        match parse_unsigned(s, 16, 0xFFFF) {
            Some(v) => Some(v as u16),
            None => None,
        }
    }

    fn from_hex_str(s: &str) -> (r: Option<u16>) {
        match parse_number(s, 16, 0xFFFF) {
            Some(v) => Some(v as u16),
            None => None,
        }
    }
}

/// What an attribute gives when its text, without the whitespace around
/// it, is read by `grammar`: the value, or the failure with the path of the
/// attribute's file.
pub open spec fn attr_value<V>(
    entry: SysfsEntry,
    attr: Seq<char>,
    grammar: spec_fn(Seq<char>) -> Option<V>,
) -> Result<V, SysfsErrorView> {
    let path = join_path(entry.path@, attr);
    match entry.raw(attr) {
        Err(failure) => Err(SysfsErrorView { path, kind: SysfsErrorKindView::Io(failure) }),
        Ok(text) => match grammar(trim(text)) {
            Some(v) => Ok(v),
            None => Err(SysfsErrorView { path, kind: SysfsErrorKindView::Parse(text) }),
        },
    }
}

/// Whether `r` is the outcome `expected`, value for value.
pub open spec fn gives<T: View>(
    r: Result<T, SysfsError>,
    expected: Result<T::V, SysfsErrorView>,
) -> bool {
    match r {
        Ok(v) => expected == Ok::<T::V, SysfsErrorView>(v@),
        Err(e) => expected == Err::<T::V, SysfsErrorView>(e@),
    }
}

impl SysfsEntry {
    /// What reading the attribute `attr` gives: its text as it stands in
    /// the file, or the failure.
    pub open spec fn raw(self, attr: Seq<char>) -> Result<Seq<char>, IoFailureView> {
        match find_attr(self.attrs@, attr) {
            None => Err(IoFailureView::Missing),
            Some(a) => match a.content {
                ReadOutcome::Text(text) => Ok(text@),
                ReadOutcome::Failed(failure) => Err(failure@),
            },
        }
    }

    /// What reading the attribute `attr` in the plain grammar gives.
    pub open spec fn read_spec<T: FromAttrStr>(self, attr: Seq<char>) -> Result<
        T::V,
        SysfsErrorView,
    > {
        attr_value(self, attr, |s: Seq<char>| T::parse_spec(s))
    }

    /// What reading the attribute `attr` in hexadecimal gives.
    pub open spec fn read_hex_spec<T: FromHexStr>(self, attr: Seq<char>) -> Result<
        T::V,
        SysfsErrorView,
    > {
        attr_value(self, attr, |s: Seq<char>| T::parse_hex_spec(s))
    }

    /// Looks up what reading the attribute `attr` gave.
    fn lookup(&self, attr: &str) -> (r: Option<&ReadOutcome>)
        ensures
            match r {
                Some(content) => find_attr(self.attrs@, attr@) matches Some(a) && a.content
                    == *content,
                None => find_attr(self.attrs@, attr@) is None,
            },
    {
        let wanted = String::from_str(attr);
        let mut i: usize = 0;
        assert(self.attrs@.skip(0) =~= self.attrs@);
        while i < self.attrs.len()
            invariant
                i <= self.attrs@.len(),
                wanted@ == attr@,
                find_attr(self.attrs@, attr@) == find_attr(self.attrs@.skip(i as int), attr@),
            decreases self.attrs@.len() - i,
        {
            proof {
                assert(self.attrs@.skip(i as int).drop_first() =~= self.attrs@.skip(i + 1));
            }
            if self.attrs[i].name == wanted {
                return Some(&self.attrs[i].content);
            }
            i += 1;
        }
        None
    }

    /// Reads the attribute `attr` and hands its text, without the
    /// whitespace around it, to `parse`.
    fn parse_attr<T: View, F: FnOnce(&str) -> Option<T>>(
        &self,
        attr: &str,
        parse: F,
        Ghost(grammar): Ghost<spec_fn(Seq<char>) -> Option<T::V>>,
    ) -> (r: Result<T, SysfsError>)
        requires
            forall|s: &str| parse.requires((s,)),
            forall|s: &str, out: Option<T>| #[trigger]
                parse.ensures((s,), out) ==> match out {
                    Some(v) => grammar(s@) == Some(v@),
                    None => grammar(s@) is None,
                },
        ensures
            gives(r, attr_value(*self, attr@, grammar)),
    {
        let attr_path = join(self.path.as_str(), attr);
        match self.lookup(attr) {
            None => Err(SysfsError(attr_path, SysfsErrorKind::Io(IoFailure::Missing))),
            Some(ReadOutcome::Failed(failure)) => Err(
                SysfsError(attr_path, SysfsErrorKind::Io(failure.duplicate())),
            ),
            Some(ReadOutcome::Text(text)) => match parse(trimmed(text.as_str())) {
                Some(v) => Ok(v),
                None => Err(SysfsError(attr_path, SysfsErrorKind::Parse(text.clone()))),
            },
        }
    }

    /// Reads the attribute `attr` in the plain grammar.
    pub fn read_attr<T: FromAttrStr>(&self, attr: &str) -> (r: Result<T, SysfsError>)
        ensures
            gives(r, self.read_spec::<T>(attr@)),
    {
        let parse = |s: &str| -> (out: Option<T>)
            ensures
                match out {
                    Some(v) => T::parse_spec(s@) == Some(v@),
                    None => T::parse_spec(s@) is None,
                },
            {
                T::from_attr_str(s)
            };
        self.parse_attr(attr, parse, Ghost(|s: Seq<char>| T::parse_spec(s)))
    }

    /// Reads the attribute `attr` in hexadecimal.
    pub fn read_attr_hex<T: FromHexStr>(&self, attr: &str) -> (r: Result<T, SysfsError>)
        ensures
            gives(r, self.read_hex_spec::<T>(attr@)),
    {
        let parse = |s: &str| -> (out: Option<T>)
            ensures
                match out {
                    Some(v) => T::parse_hex_spec(s@) == Some(v@),
                    None => T::parse_hex_spec(s@) is None,
                },
            {
                T::from_hex_str(s)
            };
        self.parse_attr(attr, parse, Ghost(|s: Seq<char>| T::parse_hex_spec(s)))
    }
}

/// The entries of a device's directory that are directories themselves.
pub open spec fn subdirectories(path: SysfsPath) -> Seq<SysfsEntry> {
    path.entries@.filter(|e: SysfsEntry| e.is_dir)
}

impl SysfsPath {
    /// Reads the attribute `attr` of the device in the plain grammar.
    pub fn read_attr<T: FromAttrStr>(&self, attr: &str) -> (r: Result<T, SysfsError>)
        ensures
            gives(r, self.node.read_spec::<T>(attr@)),
    {
        self.node.read_attr(attr)
    }

    /// Reads the attribute `attr` of the device in hexadecimal.
    pub fn read_attr_hex<T: FromHexStr>(&self, attr: &str) -> (r: Result<T, SysfsError>)
        ensures
            gives(r, self.node.read_hex_spec::<T>(attr@)),
    {
        self.node.read_attr_hex(attr)
    }

    /// The entries of the device's directory that are directories
    /// themselves, in the order of the listing.
    pub fn children(&self) -> (r: Vec<&SysfsEntry>)
        ensures
            r@.len() == subdirectories(*self).len(),
            forall|i: int| 0 <= i < r@.len() ==> *(#[trigger] r@[i]) == subdirectories(*self)[i],
    {
        let ghost is_dir = |e: SysfsEntry| e.is_dir;
        let mut out: Vec<&SysfsEntry> = Vec::new();
        let mut i: usize = 0;
        assert(self.entries@.take(0).filter(is_dir) =~= Seq::empty());
        while i < self.entries.len()
            invariant
                i <= self.entries@.len(),
                is_dir == |e: SysfsEntry| e.is_dir,
                out@.len() == self.entries@.take(i as int).filter(is_dir).len(),
                forall|j: int|
                    0 <= j < out@.len() ==> *(#[trigger] out@[j]) == self.entries@.take(
                        i as int,
                    ).filter(is_dir)[j],
            decreases self.entries@.len() - i,
        {
            proof {
                assert(self.entries@.take(i + 1).drop_last() =~= self.entries@.take(i as int));
                reveal(Seq::filter);
            }
            if self.entries[i].is_dir {
                out.push(&self.entries[i]);
            }
            i += 1;
        }
        assert(self.entries@.take(i as int) =~= self.entries@);
        out
    }
}

} // verus!
