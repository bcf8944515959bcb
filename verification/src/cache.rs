//! The snapshot cache: the last rendered snapshot, or nothing yet.
//!
//! The cell is filled by the first extraction that succeeds and replaced by every later
//! one. Nothing empties it: a failed extraction leaves what is there.

use vstd::prelude::*;
use crate::config::Config;
use crate::source::{attempt, bytes_of, extract, ExtractionError};
use crate::text::optional_text;

verus! {

/// What may happen to the cell.
pub enum CellOp {
    /// A read, together with what an extraction would give if the read had to make one.
    Read(Result<Seq<char>, ExtractionError>),
    /// A write of a freshly made snapshot.
    Overwrite(Seq<char>),
}

/// The cell after `op`. A read fills an empty cell if its extraction succeeds and changes
/// nothing otherwise; a write replaces the content.
pub open spec fn after(cell: Option<Seq<char>>, op: CellOp) -> Option<Seq<char>> {
    match op {
        CellOp::Read(extraction) => match (cell, extraction) {
            (None, Ok(snapshot)) => Some(snapshot),
            _ => cell,
        },
        CellOp::Overwrite(snapshot) => Some(snapshot),
    }
}

/// The cell after all of `ops`, first to last.
pub open spec fn after_all(cell: Option<Seq<char>>, ops: Seq<CellOp>) -> Option<Seq<char>>
    decreases ops.len(),
{
    if ops.len() == 0 {
        cell
    } else {
        after(after_all(cell, ops.drop_last()), ops.last())
    }
}

/// The cache cell.
#[derive(Debug)]
pub struct Prom {
    content: Option<String>,
}

impl View for Prom {
    type V = Option<Seq<char>>;

    closed spec fn view(&self) -> Option<Seq<char>> {
        optional_text(self.content)
    }
}

impl Prom {
    /// A cell that holds nothing yet.
    pub fn empty() -> (cell: Prom)
        ensures
            cell@ is None,
    {
        Prom { content: None }
    }

    /// A cell filled by a first extraction, and left empty where that fails.
    pub fn new(cfg: &Config, source: Option<&[u8]>) -> (cell: Prom)
        ensures
            cell@ == after(None, CellOp::Read(attempt(bytes_of(source), *cfg))),
    {
        match extract(source, cfg) {
            Ok(snapshot) => Prom { content: Some(snapshot) },
            Err(_) => Prom { content: None },
        }
    }

    /// Whether the cell is empty, so that the next read has to extract.
    pub fn is_absent(&self) -> (r: bool)
        ensures
            r == (self@ is None),
    {
        self.content.is_none()
    }

    /// Reads the cell, extracting first where it is empty.
    ///
    /// A filled cell is returned as it is and `source` is not looked at. An empty cell
    /// is filled from `source` and returned, or stays empty where the extraction fails.
    pub fn gen_output(&mut self, cfg: &Config, source: Option<&[u8]>) -> (r: Option<String>)
        ensures
            final(self)@ == after(old(self)@, CellOp::Read(attempt(bytes_of(source), *cfg))),
            optional_text(r) == final(self)@,
    {
        if self.content.is_none() {
            match extract(source, cfg) {
                Ok(snapshot) => {
                    self.content = Some(snapshot);
                },
                Err(_) => {
                    return None;
                },
            }
        }
        self.content.clone()
    }

    /// Replaces the content of the cell.
    pub fn overwrite(&mut self, snapshot: String)
        ensures
            final(self)@ == after(old(self)@, CellOp::Overwrite(snapshot@)),
    {
        self.content = Some(snapshot);
    }
}

/// A read of an empty cell whose extraction fails returns nothing and leaves the cell
/// empty.
pub proof fn lemma_failed_read_stays_absent(error: ExtractionError)
    ensures
        after(None, CellOp::Read(Err(error))) is None,
{
}

/// A successful extraction, by a read of an empty cell or by a write, fills the cell.
pub proof fn lemma_success_fills(cell: Option<Seq<char>>, snapshot: Seq<char>)
    ensures
        after(cell, CellOp::Overwrite(snapshot)) == Some(snapshot),
        after(None, CellOp::Read(Ok(snapshot))) == Some(snapshot),
{
}

/// A filled cell stays filled, whatever happens to it afterwards and however many of
/// the later extractions fail.
pub proof fn lemma_never_absent_again(cell: Option<Seq<char>>, ops: Seq<CellOp>)
    requires
        cell is Some,
    ensures
        after_all(cell, ops) is Some,
    decreases ops.len(),
{
    if ops.len() > 0 {
        lemma_never_absent_again(cell, ops.drop_last());
    }
}

/// A read never changes a filled cell: what was served once is served until the next
/// write.
pub proof fn lemma_reads_keep_content(cell: Option<Seq<char>>, ops: Seq<CellOp>)
    requires
        cell is Some,
        forall|i: int| 0 <= i < ops.len() ==> #[trigger] ops[i] is Read,
    ensures
        after_all(cell, ops) == cell,
    decreases ops.len(),
{
    if ops.len() > 0 {
        lemma_reads_keep_content(cell, ops.drop_last());
    }
}

} // verus!
