//! Formatting one batch of watcher errors.
//!
//! A batch of errors is non-fatal: its messages are joined into one report,
//! one message per line, and the loop goes on with the next batch.

use vstd::prelude::*;
use vstd::string::StringExecFns;

use crate::path_model::views_of;

verus! {

/// The messages joined with a newline between consecutive messages; no
/// trailing newline.
pub open spec fn joined_lines(ms: Seq<Seq<char>>) -> Seq<char>
    decreases ms.len(),
{
    if ms.len() == 0 {
        Seq::empty()
    } else if ms.len() == 1 {
        ms[0]
    } else {
        joined_lines(ms.drop_last()) + seq!['\n'] + ms.last()
    }
}

/// Formats one batch of watcher error messages as a multi-line report.
pub fn handle_err_events(errs: &Vec<String>) -> (r: String)
    ensures
        r@ == joined_lines(views_of(errs@)),
{
    let mut out = String::new();
    let mut i: usize = 0;
    while i < errs.len()
        invariant
            i <= errs@.len(),
            out@ == joined_lines(views_of(errs@).take(i as int)),
        decreases errs@.len() - i,
    {
        let ghost before = out@;
        if i > 0 {
            out.append("\n");
        }
        out.append(errs[i].as_str());
        proof {
            reveal_strlit("\n");
            let ms = views_of(errs@);
            assert(ms.take(i + 1).drop_last() =~= ms.take(i as int));
            assert(ms.take(i + 1).last() == errs@[i as int]@);
            if i == 0 {
                assert(out@ =~= joined_lines(ms.take(i + 1)));
            } else {
                assert(out@ =~= joined_lines(ms.take(i as int)) + seq!['\n'] + errs@[i as int]@);
            }
        }
        i = i + 1;
    }
    proof {
        assert(views_of(errs@).take(errs@.len() as int) =~= views_of(errs@));
    }
    out
}

} // verus!
