//! The log of an import: which saved rows the ERP answered with a message.
use vstd::prelude::*;

verus! {

/// The log lines of an import: the line number and status message of each
/// result that carries a message, in order.
pub open spec fn log_lines(results: Seq<(i32, Option<String>)>) -> Seq<(i32, String)>
    decreases results.len(),
{
    if results.len() == 0 {
        Seq::empty()
    } else {
        let rest = log_lines(results.drop_last());
        match results.last().1 {
            Some(message) => rest.push((results.last().0, message)),
            None => rest,
        }
    }
}

/// The log keeps the results with a message, in order, with their line
/// number and message unchanged: a result with a message gives one line, a
/// result without gives none, and two runs of results give the lines of the
/// first followed by those of the second.
pub proof fn law_log_lines_in_order(
    r1: Seq<(i32, Option<String>)>,
    r2: Seq<(i32, Option<String>)>,
    line: i32,
    message: String,
)
    ensures
        log_lines(seq![(line, Some(message))]) == seq![(line, message)],
        log_lines(seq![(line, None::<String>)]) == Seq::<(i32, String)>::empty(),
        log_lines(r1 + r2) == log_lines(r1) + log_lines(r2),
    decreases r2.len(),
{
    assert(seq![(line, Some(message))].drop_last() =~= Seq::<(i32, Option<String>)>::empty());
    assert(seq![(line, None::<String>)].drop_last() =~= Seq::<(i32, Option<String>)>::empty());
    assert(Seq::<(i32, String)>::empty().push((line, message)) =~= seq![(line, message)]);
    assert(log_lines(Seq::<(i32, Option<String>)>::empty()) == Seq::<(i32, String)>::empty());
    assert(seq![(line, Some(message))].last() == (line, Some(message)));
    assert(seq![(line, None::<String>)].last() == (line, None::<String>));
    assert(log_lines(seq![(line, Some(message))]) == log_lines(
        Seq::<(i32, Option<String>)>::empty(),
    ).push((line, message)));
    assert(log_lines(seq![(line, None::<String>)]) == log_lines(
        Seq::<(i32, Option<String>)>::empty(),
    ));
    if r2.len() == 0 {
        assert(r1 + r2 =~= r1);
        assert(log_lines(r1) + log_lines(r2) =~= log_lines(r1));
    } else {
        let init = r2.drop_last();
        law_log_lines_in_order(r1, init, line, message);
        assert((r1 + r2).drop_last() =~= r1 + init);
        assert((r1 + r2).last() == r2.last());
        match r2.last().1 {
            Some(m) => {
                assert(log_lines(r1) + log_lines(init).push((r2.last().0, m)) =~= (log_lines(r1)
                    + log_lines(init)).push((r2.last().0, m)));
            },
            None => {},
        }
    }
}

/// A log has at most one line per result.
proof fn lemma_log_lines_len(results: Seq<(i32, Option<String>)>)
    ensures
        log_lines(results).len() <= results.len(),
    decreases results.len(),
{
    if results.len() > 0 {
        lemma_log_lines_len(results.drop_last());
    }
}

/// Splits the results of an import (line number, status message if any) into
/// the lines to log, those with a message, and the number of results without one.
pub fn log_rows(results: &Vec<(i32, Option<String>)>) -> (res: (Vec<(i32, String)>, usize))
    ensures
        res.0@ == log_lines(results@),
        res.1 + res.0@.len() == results@.len(),
{
    let mut size = results.len();
    let mut rows: Vec<(i32, String)> = Vec::new();
    let n = results.len();
    let mut i: usize = 0;
    while i < n
        invariant
            n == results@.len(),
            i <= n,
            rows@ == log_lines(results@.take(i as int)),
            size + rows@.len() == n,
        decreases n - i,
    {
        assert(results@.take(i + 1).drop_last() =~= results@.take(i as int));
        proof {
            lemma_log_lines_len(results@.take(i as int));
        }
        match &results[i].1 {
            Some(message) => {
                size = size - 1;
                rows.push((results[i].0, message.clone()));
            },
            None => {},
        }
        i = i + 1;
    }
    assert(results@.take(n as int) =~= results@);
    (rows, size)
}

} // verus!
