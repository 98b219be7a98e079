//! The read driver: from pre-decoded rows to the validated log.
//!
//! The external tabular decoder hands over one entry per input row, in
//! input order: either the decoded raw row, or the decoder's own error
//! rendered as text. The driver converts the rows strictly in order and
//! stops at the first one that fails, returning no partial result.

use vstd::prelude::*;

use crate::error::Error;
use crate::records::{build_error_matches, build_ok, record_matches, BuildExposureInfo, ExposureInfo};

verus! {

/// The read can use this row: the decoder succeeded and the raw row
/// builds into a validated record.
pub open spec fn row_ok(row: Result<BuildExposureInfo, String>) -> bool {
    row matches Ok(args) && build_ok(args)
}

/// Which error a failing row must surface: a decoder failure becomes
/// `FailedToParse` with the decoder's text, a decoded row surfaces its
/// build error.
pub open spec fn row_error_matches(row: Result<BuildExposureInfo, String>, e: Error) -> bool {
    match row {
        Ok(args) => build_error_matches(args, e),
        Err(msg) => e matches Error::FailedToParse { message } && message@ == msg@,
    }
}

/// Reads the whole log: every row builds, in input order, into the
/// record at the same position — or the first failing row aborts the
/// read with its error and no rows are returned at all.
#[verifier::loop_isolation(false)]
pub fn read_metadata(rows: Vec<Result<BuildExposureInfo, String>>) -> (r: Result<
    Vec<ExposureInfo>,
    Error,
>)
    ensures
        r is Ok <==> (forall|i: int| 0 <= i < rows@.len() ==> row_ok(rows@[i])),
        r matches Ok(recs) ==> {
            &&& recs@.len() == rows@.len()
            &&& forall|i: int|
                0 <= i < rows@.len() ==> record_matches(rows@[i]->Ok_0, #[trigger] recs@[i])
                    && recs@[i].well_formed()
        },
        r matches Err(e) ==> exists|j: int|
            {
                &&& 0 <= j < rows@.len()
                &&& !row_ok(#[trigger] rows@[j])
                &&& (forall|i: int| 0 <= i < j ==> row_ok(rows@[i]))
                &&& row_error_matches(rows@[j], e)
            },
{
    let ghost all = rows@;
    let mut remaining = rows;
    let mut res: Vec<ExposureInfo> = Vec::new();
    while remaining.len() > 0
        invariant
            all.len() == res@.len() + remaining@.len(),
            remaining@ == all.skip(res@.len() as int),
            forall|i: int| 0 <= i < res@.len() ==> row_ok(#[trigger] all[i]),
            forall|i: int|
                0 <= i < res@.len() ==> record_matches(all[i]->Ok_0, #[trigger] res@[i])
                    && res@[i].well_formed(),
        decreases remaining@.len(),
    {
        let ghost k = res@.len() as int;
        proof {
            assert(all[k] == remaining@[0]);
        }
        let row = remaining.remove(0);
        match row {
            Err(msg) => {
                let err = Error::FailedToParse { message: msg };
                proof {
                    lemma_first_failure(all, k, err);
                }
                return Err(err);
            },
            Ok(args) => {
                match ExposureInfo::build(args) {
                    Err(e) => {
                        proof {
                            lemma_first_failure(all, k, e);
                        }
                        return Err(e);
                    },
                    Ok(rec) => {
                        res.push(rec);
                    },
                }
            },
        }
        proof {
            assert(remaining@ =~= all.skip(res@.len() as int));
        }
    }
    proof {
        assert(res@.len() == all.len());
        assert forall|i: int| 0 <= i < all.len() implies row_ok(all[i]) && record_matches(
            all[i]->Ok_0,
            res@[i],
        ) && res@[i].well_formed() by {}
    }
    Ok(res)
}

/// At the first row that fails, the read surfaces that row's error.
proof fn lemma_first_failure(all: Seq<Result<BuildExposureInfo, String>>, k: int, e: Error)
    requires
        0 <= k < all.len(),
        !row_ok(all[k]),
        forall|i: int| 0 <= i < k ==> row_ok(#[trigger] all[i]),
        row_error_matches(all[k], e),
    ensures
        exists|j: int|
            {
                &&& 0 <= j < all.len()
                &&& !row_ok(#[trigger] all[j])
                &&& (forall|i: int| 0 <= i < j ==> row_ok(all[i]))
                &&& row_error_matches(all[j], e)
            },
{
    assert({
        &&& 0 <= k < all.len()
        &&& !row_ok(all[k])
        &&& (forall|i: int| 0 <= i < k ==> row_ok(all[i]))
        &&& row_error_matches(all[k], e)
    });
}

} // verus!
