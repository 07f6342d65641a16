//! The source files of a compilation: their names and text, where their
//! lines start, and parsing them together as one file.

use vstd::prelude::*;
use crate::swipc::diagnostics::Diagnostic;
use crate::swipc::model::IpcFileItem;
use crate::swipc::grammar::ItemView;
use crate::swipc::parser::{item_views, parse_items_from_source, source_items};
use crate::swipc::text::{decimal, push_decimal, push_bytes};
use crate::swipc::typecheck::{IpcFile, all_errors, file_diagnostics, reports};
use vstd::string::StringSliceAdditionalSpecFns;
use vstd::utf8::encode_utf8;

verus! {

/// Where the lines of a text start: at 0 and after each line feed.
pub open spec fn line_starts_spec(s: Seq<u8>) -> Seq<nat>
    decreases s.len(),
{
    if s.len() == 0 {
        seq![0nat]
    } else {
        line_starts_spec(s.drop_last()) + if s.last() == 10 {
            seq![s.len()]
        } else {
            Seq::empty()
        }
    }
}

/// Where the lines of `s` start.
pub fn line_starts(s: &[u8]) -> (r: Vec<usize>)
    ensures
        r@.map_values(|x: usize| x as nat) == line_starts_spec(s@),
{
    let mut r: Vec<usize> = Vec::new();
    r.push(0);
    let mut i: usize = 0;
    proof {
        assert(s@.take(0) =~= Seq::<u8>::empty());
        assert(r@.map_values(|x: usize| x as nat) =~= line_starts_spec(s@.take(0)));
    }
    while i < s.len()
        invariant
            i <= s@.len(),
            r@.map_values(|x: usize| x as nat) == line_starts_spec(s@.take(i as int)),
        decreases s@.len() - i,
    {
        proof {
            assert(s@.take(i + 1).drop_last() =~= s@.take(i as int));
        }
        if s[i] == 10 {
            r.push(i + 1);
        }
        i = i + 1;
        proof {
            assert(r@.map_values(|x: usize| x as nat) =~= line_starts_spec(s@.take(i as int)));
        }
    }
    proof {
        assert(s@.take(s@.len() as int) =~= s@);
    }
    r
}

/// A line number past the last line.
#[derive(Clone, Copy, PartialEq, Eq, Debug, Structural)]
pub enum LineError {
    LineTooLarge { given: usize, max: usize },
    FileMissing,
}

/// A named source file.
#[derive(Debug)]
pub struct SourceFile {
    pub name: String,
    pub content: String,
    /// The starting byte indices in the source code.
    pub line_starts: Vec<usize>,
}

impl SourceFile {
    pub open spec fn starts(&self) -> Seq<nat> {
        self.line_starts@.map_values(|x: usize| x as nat)
    }

    pub open spec fn wf(&self) -> bool {
        self.starts() == line_starts_spec(encode_utf8(self.content@))
    }

    pub fn new(name: String, content: String) -> (r: Self)
        ensures
            r.name == name,
            r.content == content,
            r.wf(),
    {
        let line_starts = line_starts(content.as_str().as_bytes());
        Self { name, line_starts, content }
    }

    /// The byte index where line `line_index` starts; the line after the last
    /// starts at the end of the text.
    pub fn line_start(&self, line_index: usize) -> (r: Result<usize, LineError>)
        requires
            self.wf(),
        ensures
            line_index < self.starts().len() ==> r == Ok::<usize, LineError>(self.starts()[line_index as int] as usize),
            line_index == self.starts().len() ==> r == Ok::<usize, LineError>(encode_utf8(self.content@).len() as usize),
            line_index > self.starts().len() ==> r == Err::<usize, LineError>(LineError::LineTooLarge {
                given: line_index,
                max: (self.starts().len() - 1) as usize,
            }),
    {
        proof {
            lemma_line_starts_nonempty(encode_utf8(self.content@));
        }
        if line_index < self.line_starts.len() {
            Ok(self.line_starts[line_index])
        } else if line_index == self.line_starts.len() {
            Ok(self.content.as_str().as_bytes().len())
        } else {
            Err(LineError::LineTooLarge { given: line_index, max: self.line_starts.len() - 1 })
        }
    }

    /// The index of the line that holds byte `byte_index`: the last line that
    /// starts at or before it.
    pub fn line_index(&self, byte_index: usize) -> (r: usize)
        requires
            self.wf(),
        ensures
            r < self.starts().len(),
            self.starts()[r as int] <= byte_index,
            forall|j: int| r < j < self.starts().len() ==> self.starts()[j] > byte_index,
    {
        proof {
            lemma_line_starts_nonempty(encode_utf8(self.content@));
            lemma_line_starts_sorted(encode_utf8(self.content@));
        }
        let mut r: usize = 0;
        let mut i: usize = 1;
        while i < self.line_starts.len()
            invariant
                self.wf(),
                1 <= i <= self.line_starts@.len(),
                r < i,
                self.starts()[r as int] <= byte_index,
                forall|j: int| r < j < i ==> self.starts()[j] > byte_index,
                forall|a: int, b: int| 0 <= a < b < self.starts().len() ==> self.starts()[a] < self.starts()[b],
            decreases self.line_starts@.len() - i,
        {
            if self.line_starts[i] <= byte_index {
                r = i;
            }
            i = i + 1;
        }
        r
    }
}

proof fn lemma_line_starts_nonempty(s: Seq<u8>)
    ensures
        line_starts_spec(s).len() >= 1,
        line_starts_spec(s)[0] == 0,
    decreases s.len(),
{
    if s.len() > 0 {
        lemma_line_starts_nonempty(s.drop_last());
    }
}

proof fn lemma_line_starts_sorted(s: Seq<u8>)
    ensures
        forall|a: int, b: int| 0 <= a < b < line_starts_spec(s).len() ==> line_starts_spec(s)[a] < line_starts_spec(s)[b],
        forall|a: int| 0 <= a < line_starts_spec(s).len() ==> line_starts_spec(s)[a] <= s.len(),
    decreases s.len(),
{
    if s.len() > 0 {
        lemma_line_starts_sorted(s.drop_last());
        let p = line_starts_spec(s.drop_last());
        let l = line_starts_spec(s);
        assert forall|a: int| 0 <= a < p.len() implies l[a] == p[a] by {}
        if s.last() == 10 {
            assert(l.len() == p.len() + 1);
            assert(l[p.len() as int] == s.len());
        } else {
            assert(l =~= p);
        }
    }
}

/// A collection of source files; a file's id is its index.
#[derive(Debug)]
pub struct SourceFiles {
    pub files: Vec<SourceFile>,
}

impl SourceFiles {
    /// Add a file, returning the id that refers to it.
    pub fn add(&mut self, name: String, content: String) -> (r: usize)
        requires
            old(self).files@.len() < usize::MAX,
        ensures
            r == old(self).files@.len(),
            final(self).files@.len() == old(self).files@.len() + 1,
            forall|i: int| 0 <= i < r ==> final(self).files@[i] == old(self).files@[i],
            final(self).files@[r as int].name == name,
            final(self).files@[r as int].content == content,
            final(self).files@[r as int].wf(),
    {
        let file_id = self.files.len();
        self.files.push(SourceFile::new(name, content));
        file_id
    }

    /// The file with the given id.
    pub fn get(&self, file_id: usize) -> (r: Result<&SourceFile, LineError>)
        ensures
            file_id < self.files@.len() ==> (r matches Ok(f) && *f == self.files@[file_id as int]),
            file_id >= self.files@.len() ==> r == Err::<&SourceFile, LineError>(LineError::FileMissing),
    {
        if file_id < self.files.len() {
            Ok(&self.files[file_id])
        } else {
            Err(LineError::FileMissing)
        }
    }
}

/// The items of the first `n` files, in order, each file parsed with its
/// index as its id; `None` when one of them does not parse.
pub open spec fn sources_items(files: Seq<SourceFile>, n: int) -> Option<Seq<ItemView>>
    decreases n,
{
    if n <= 0 {
        Some(Seq::empty())
    } else {
        match sources_items(files, n - 1) {
            Some(a) => match source_items((n - 1) as usize, encode_utf8(files[n - 1].content@)) {
                Some(b) => Some(a + b),
                None => None,
            },
            None => None,
        }
    }
}

/// Parse all files and type check their items together, as one file.
/// Fails with the parse errors of all files that do not parse, or else with
/// the diagnostics of the type checker.
pub fn parse_files(files: &SourceFiles) -> (r: Result<IpcFile, Vec<Diagnostic>>)
    ensures
        match sources_items(files.files@, files.files@.len() as int) {
            None => r matches Err(ds) && ds@.len() > 0 && all_errors(ds@),
            Some(its) => exists|items: Seq<IpcFileItem>| item_views(items) == its
                && reports(r, file_diagnostics(items))
                && (r matches Ok(f) ==> f.items_spec() == items),
        },
{
    let mut items: Vec<IpcFileItem> = Vec::new();
    let mut errors: Vec<Diagnostic> = Vec::new();
    let mut id: usize = 0;
    while id < files.files.len()
        invariant
            id <= files.files@.len(),
            all_errors(errors@),
            errors@.len() == 0 <==> sources_items(files.files@, id as int) is Some,
            errors@.len() == 0 ==> sources_items(files.files@, id as int) == Some(item_views(items@)),
        decreases files.files@.len() - id,
    {
        match parse_items_from_source(id, files.files[id].content.as_str()) {
            Ok(f) => {
                let mut f = f;
                let ghost before = items@;
                let ghost fv = f@;
                items.append(&mut f);
                proof {
                    assert(item_views(items@) =~= item_views(before) + item_views(fv));
                }
            },
            Err(e) => {
                let mut e = e;
                let ghost e0 = errors@;
                let ghost e1 = e@;
                errors.append(&mut e);
                assert forall|i: int| 0 <= i < errors@.len() implies (#[trigger] errors@[i]).severity
                    == crate::swipc::diagnostics::Severity::Error by {
                    if i >= e0.len() {
                        assert(errors@[i] == e1[i - e0.len()]);
                    } else {
                        assert(errors@[i] == e0[i]);
                    }
                }
            },
        }
        id = id + 1;
    }
    if errors.len() > 0 {
        return Err(errors);
    }
    IpcFile::try_new(items)
}

/// Names the padding fields of generated structures: `_padding_0`,
/// `_padding_1`, and so on.
pub struct PaddingHelper {
    number: usize,
}

impl PaddingHelper {
    /// How many names were handed out.
    pub closed spec fn count(&self) -> nat {
        self.number as nat
    }

    pub fn new() -> (r: Self)
        ensures
            r.count() == 0,
    {
        Self { number: 0 }
    }

    /// The next name.
    pub fn next_padding_name(&mut self) -> (r: Vec<u8>)
        requires
            old(self).count() < usize::MAX,
        ensures
            r@ == "_padding_".spec_bytes() + decimal(old(self).count()),
            final(self).count() == old(self).count() + 1,
    {
        let number = self.number;
        self.number = self.number + 1;
        let mut name: Vec<u8> = Vec::new();
        push_bytes(&mut name, "_padding_".as_bytes());
        push_decimal(&mut name, number as u64);
        name
    }
}

} // verus!
