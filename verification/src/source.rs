//! Source files as the pipeline sees them.
//!
//! The core never touches the file system: the caller reads each path and
//! hands the outcome over as a `SourceFile`, with `body == None` where the
//! path did not exist or could not be read.

use vstd::prelude::*;

verus! {

/// A file handed to the pipeline: its path for diagnostics, and its contents
/// where the read succeeded.
#[derive(Debug, PartialEq)]
pub struct SourceFile {
    pub path: String,
    pub body: Option<String>,
}

/// Index of the first file whose body is missing, or -1 when all were read.
pub open spec fn first_unreadable(files: Seq<SourceFile>) -> int
    decreases files,
{
    if files.len() == 0 {
        -1
    } else if files[0].body is None {
        0
    } else {
        let r = first_unreadable(files.drop_first());
        if r < 0 {
            -1
        } else {
            r + 1
        }
    }
}

/// The bodies of a list of readable files.
pub open spec fn bodies_of(files: Seq<SourceFile>) -> Seq<String> {
    files.map_values(|f: SourceFile| f.body->Some_0)
}

/// `first_unreadable` returns the first missing body: -1 exactly when every
/// body is present, else the least index without one.
pub proof fn lemma_first_unreadable(files: Seq<SourceFile>)
    ensures
        first_unreadable(files) == -1 <==> (forall|t: int|
            0 <= t < files.len() ==> #[trigger] files[t].body is Some),
        first_unreadable(files) >= 0 ==> {
            let r = first_unreadable(files);
            0 <= r < files.len() && files[r].body is None && (forall|t: int|
                0 <= t < r ==> #[trigger] files[t].body is Some)
        },
    decreases files,
{
    if files.len() == 0 {
    } else if files[0].body is None {
    } else {
        let fs1 = files.drop_first();
        lemma_first_unreadable(fs1);
        assert(forall|t: int| 0 <= t < fs1.len() ==> #[trigger] fs1[t] == files[t + 1]);
        let r1 = first_unreadable(fs1);
        if r1 < 0 {
            assert forall|t: int| 0 <= t < files.len() implies #[trigger] files[t].body
                is Some by {
                if t > 0 {
                    assert(fs1[t - 1].body is Some);
                }
            }
        } else {
            assert forall|t: int| 0 <= t < r1 + 1 implies #[trigger] files[t].body is Some by {
                if t > 0 {
                    assert(fs1[t - 1].body is Some);
                }
            }
        }
    }
}

} // verus!
