//! Reading documents: which scan a read is, the statement of the scan, and what a reader
//! owes when it is done.

use crate::bounds::{
    each_view, fits, key_bounds, key_bounds_of, KeyBounds, KeyBoundsV, KeyRange, KeyRangeV,
    QueryPlan,
};
use crate::catalog::{Catalog, CatalogV};
use crate::error::Error;
use crate::index::{get_normalized_spec, normalized};
use crate::layout::{
    docs_table, index_table, sql_index_scan, sql_scan_documents, Expect, Param, ParamV, Statement,
    StatementV,
};
use crate::plan::{Step, StepV};
use vstd::prelude::*;

verus! {

/// The content of a read plan.
pub enum ReadPlanV {
    Empty,
    TableScan { tx: bool, statement: StatementV },
    IndexScan { tx: bool, db: Seq<char>, coll: Seq<char>, name: Seq<char>, bounds: KeyBoundsV },
}

/// How a read is to be done.
#[derive(Debug, PartialEq, Eq)]
pub enum ReadPlan {
    /// The collection is not there: the read gives nothing, and nothing is asked of the
    /// backing store.
    Empty,
    /// Every document of the collection, by the given statement.
    TableScan { tx: bool, statement: Statement },
    /// The documents with an entry within the bounds in the named index. The keys of the
    /// bounds have yet to be encoded.
    IndexScan { tx: bool, db: String, coll: String, name: String, bounds: KeyBounds },
}

impl DeepView for ReadPlan {
    type V = ReadPlanV;

    open spec fn deep_view(&self) -> ReadPlanV {
        match self {
            ReadPlan::Empty => ReadPlanV::Empty,
            ReadPlan::TableScan { tx, statement } => ReadPlanV::TableScan {
                tx: *tx,
                statement: statement.deep_view(),
            },
            ReadPlan::IndexScan { tx, db, coll, name, bounds } => ReadPlanV::IndexScan {
                tx: *tx,
                db: db@,
                coll: coll@,
                name: name@,
                bounds: bounds.deep_view(),
            },
        }
    }
}

/// The statement that reads every document of a collection.
pub open spec fn table_scan(db: Seq<char>, coll: Seq<char>) -> StatementV {
    StatementV {
        sql: sql_scan_documents(docs_table(db, coll)),
        params: Seq::empty(),
        expect: Expect::Anything,
    }
}

/// Each byte string as a parameter.
pub open spec fn blobs(keys: Seq<Seq<u8>>) -> Seq<ParamV> {
    Seq::new(keys.len(), |i: int| ParamV::Blob(keys[i]))
}

/// The statement that reads, each once, the documents of a collection with an entry of
/// the named index in the given range of keys.
pub open spec fn index_scan(
    db: Seq<char>,
    coll: Seq<char>,
    name: Seq<char>,
    range: KeyRangeV,
) -> StatementV {
    StatementV {
        sql: sql_index_scan(docs_table(db, coll), index_table(db, coll, name), range.condition()),
        params: blobs(range.params()),
        expect: Expect::Anything,
    }
}

/// How a read of the collection `db`.`coll` is to be done: nothing is read where the
/// collection is missing; without a query plan, every document is; with one, the index of
/// the plan is scanned within the plan's bounds. `None` stands for a plan that cannot be
/// followed.
pub open spec fn read_plan(
    c: CatalogV,
    tx: bool,
    db: Seq<char>,
    coll: Seq<char>,
    plan: Option<(crate::index::IndexInfoV, crate::bounds::QueryBoundsV)>,
) -> Result<ReadPlanV, Error> {
    if !c.has_collection(db, coll) {
        Ok(ReadPlanV::Empty)
    } else {
        match plan {
            None => Ok(ReadPlanV::TableScan { tx, statement: table_scan(db, coll) }),
            Some((ndx, bounds)) => {
                if bounds is Text {
                    Err(Error::BadBounds)
                } else {
                    match normalized(ndx) {
                        None => Err(Error::BadIndexSpec),
                        Some((f, _)) => if fits(f, bounds) {
                            Ok(
                                ReadPlanV::IndexScan {
                                    tx,
                                    db: ndx.db,
                                    coll: ndx.coll,
                                    name: ndx.name,
                                    bounds: key_bounds_of(f, bounds),
                                },
                            )
                        } else {
                            Err(Error::BadBounds)
                        },
                    }
                }
            },
        }
    }
}

/// The statement that reads every document of a collection.
pub fn get_table_scan_reader(db: &str, coll: &str) -> (r: Statement)
    ensures
        r.deep_view() == table_scan(db@, coll@),
{
    let table = crate::layout::get_table_name_for_collection(db, coll);
    let r = Statement {
        sql: crate::layout::scan_documents(table.as_str()),
        params: Vec::new(),
        expect: Expect::Anything,
    };
    assert(r.params.deep_view() =~= Seq::empty());
    r
}

/// The statement that scans the named index of a collection within a range of keys.
pub fn get_stmt_for_index_scan(db: &str, coll: &str, name: &str, range: &KeyRange) -> (r: Statement)
    ensures
        r.deep_view() == index_scan(db@, coll@, name@, range.deep_view()),
{
    let docs = crate::layout::get_table_name_for_collection(db, coll);
    let ndx = crate::layout::get_table_name_for_index(db, coll, name);
    let condition = range.condition();
    let keys = range.params();
    let mut params: Vec<Param> = Vec::new();
    let mut i: usize = 0;
    while i < keys.len()
        invariant
            i <= keys.len(),
            params.len() == i,
            forall|j: int| 0 <= j < i ==> (#[trigger] params[j]).deep_view() == ParamV::Blob(keys[j]@),
        decreases keys.len() - i,
    {
        params.push(Param::Blob(crate::value::copy_bytes(&keys[i])));
        i += 1;
    }
    assert(params.deep_view() =~= blobs(each_view(keys@)));
    Statement {
        sql: crate::layout::index_scan(docs.as_str(), ndx.as_str(), condition.as_str()),
        params,
        expect: Expect::Anything,
    }
}

impl Catalog {
    /// Decides how a read of a collection is to be done. With `tx` the reader opens a
    /// transaction of its own, which it has to release.
    pub fn get_reader(&self, tx: bool, db: &str, coll: &str, plan: Option<&QueryPlan>) -> (r: Result<
        ReadPlan,
        Error,
    >)
        ensures
            match read_plan(
                self.deep_view(),
                tx,
                db@,
                coll@,
                match plan {
                    Some(p) => Some((p.ndx@, p.bounds.deep_view())),
                    None => None,
                },
            ) {
                Ok(p) => r is Ok && r->Ok_0.deep_view() == p,
                Err(e) => r is Err && r->Err_0 == e,
            },
    {
        if self.get_collection_options(db, coll).is_none() {
            return Ok(ReadPlan::Empty);
        }
        match plan {
            None => Ok(ReadPlan::TableScan { tx, statement: get_table_scan_reader(db, coll) }),
            Some(p) => {
                match &p.bounds {
                    crate::bounds::QueryBounds::Text(_, _) => {
                        return Err(Error::BadBounds);
                    },
                    _ => {},
                }
                match get_normalized_spec(&p.ndx) {
                    Err(_) => Err(Error::BadIndexSpec),
                    Ok((fields, _)) => match key_bounds(&fields, &p.bounds) {
                        Err(e) => Err(e),
                        Ok(bounds) => Ok(
                            ReadPlan::IndexScan {
                                tx,
                                db: p.ndx.db.clone(),
                                coll: p.ndx.coll.clone(),
                                name: p.ndx.name.clone(),
                                bounds,
                            },
                        ),
                    },
                }
            },
        }
    }
}

/// A reader over the rows of a scan: forward only, one document at a time.
#[derive(Debug, PartialEq, Eq)]
pub struct Reader {
    /// Whether the reader opened a transaction of its own.
    pub tx: bool,
    /// The statement whose rows it reads; none for a reader over nothing.
    pub stmt: Option<Statement>,
}

impl Reader {
    /// The reader that a read plan with its statement makes.
    pub fn new(tx: bool, stmt: Option<Statement>) -> (r: Reader)
        ensures
            r.tx == (tx && stmt is Some),
            r.stmt == stmt,
    {
        let owns = tx && stmt.is_some();
        Reader { tx: owns, stmt }
    }

    /// The step to take before the first row is read: a reader with a transaction of its
    /// own opens it.
    pub fn begin(&self) -> (r: Option<Step>)
        ensures
            self.tx ==> r is Some && r->0.deep_view() == StepV::Begin,
            !self.tx ==> r is None,
    {
        if self.tx {
            Some(Step::Begin)
        } else {
            None
        }
    }

    /// The step to take when the reader is discarded, whether or not it was read to its
    /// end: a reader with a transaction of its own releases it.
    pub fn release(&self) -> (r: Option<Step>)
        ensures
            self.tx ==> r is Some && r->0.deep_view() == StepV::Commit,
            !self.tx ==> r is None,
    {
        if self.tx {
            Some(Step::Commit)
        } else {
            None
        }
    }

    /// How many keys the scan has examined. Scans do not count them.
    pub fn get_total_keys_examined(&self) -> (r: u64)
        ensures
            r == 0,
    {
        0
    }
}

/// What a reader hands on for one step of its scan: a failure is handed on as the next
/// item, a row as the next document, and the end of the rows ends the reading.
pub fn next<T>(row: Result<Option<T>, Error>) -> (r: Option<Result<T, Error>>)
    ensures
        r == match row {
            Err(e) => Some(Err::<T, Error>(e)),
            Ok(None) => None::<Result<T, Error>>,
            Ok(Some(v)) => Some(Ok::<T, Error>(v)),
        },
{
    match row {
        Err(e) => Some(Err(e)),
        Ok(None) => None,
        Ok(Some(v)) => Some(Ok(v)),
    }
}

} // verus!
