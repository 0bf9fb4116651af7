//! The query splitter: a query line becomes a clause and an optional
//! projection, the list of fields that the service is asked to return.

use vstd::prelude::*;
use crate::text::{chars_of, is_white_space, split_words, trim, trim_str, views, words};

verus! {

/// A query as it is sent to the service.
#[derive(Debug, PartialEq, Eq)]
pub struct QueryRequest {
    /// The query clause, forwarded verbatim.
    pub clause: String,
    /// The requested return fields, in the order given, duplicates kept.
    pub projection: Option<Vec<String>>,
}

/// Why a query line could not be split.
#[derive(Debug, PartialEq, Eq, Structural)]
pub enum SplitError {
    /// Nothing but white space was entered.
    EmptyQuery,
}

impl QueryRequest {
    /// The projection as a sequence of field names.
    pub open spec fn projection_view(&self) -> Option<Seq<Seq<char>>> {
        match self.projection {
            Some(v) => Some(views(v@)),
            None => None,
        }
    }
}

/// The clause of a trimmed, non-empty query line `t`: the text before the
/// first `|`, trimmed, or the whole line when it holds no `|`.
pub open spec fn clause_of(t: Seq<char>) -> Seq<char> {
    match t.index_of_first('|') {
        Some(p) => trim(t.take(p)),
        None => t,
    }
}

/// The projection of a trimmed, non-empty query line `t`: the words after the
/// first `|`, or nothing when there is no `|` or only white space follows it.
pub open spec fn projection_of(t: Seq<char>) -> Option<Seq<Seq<char>>> {
    match t.index_of_first('|') {
        Some(p) => {
            let options = trim(t.skip(p + 1));
            if options.len() == 0 {
                None
            } else {
                Some(words(options))
            }
        },
        None => None,
    }
}

/// Splits a query line into its clause and its projection.
///
/// The line is trimmed; a line with nothing left is refused. Only the first
/// `|` separates the clause from the options; later ones are part of the
/// options text and come out as words of their own.
pub fn split(input: &str) -> (r: Result<QueryRequest, SplitError>)
    ensures
        r is Err <==> trim(input@).len() == 0,
        r matches Ok(q) ==> (q.clause@ == clause_of(trim(input@)) && q.projection_view()
            == projection_of(trim(input@))),
        trim(input@).len() > 0 && !input@.contains('|') ==> (r matches Ok(q) && q.clause@ == trim(
            input@,
        ) && q.projection is None),
{
    let t = trim_str(input);
    let cs = chars_of(t);
    let n = cs.len();
    if n == 0 {
        return Err(SplitError::EmptyQuery);
    }
    let mut p: usize = 0;
    while p < n && cs[p] != '|'
        invariant
            cs@ == t@,
            n == t@.len(),
            p <= n,
            forall|k: int| 0 <= k < p ==> t@[k] != '|',
        decreases n - p,
    {
        p = p + 1;
    }
    proof {
        t@.index_of_first_ensures('|');
    }
    if p == n {
        assert(!t@.contains('|'));
        Ok(QueryRequest { clause: t.to_owned(), projection: None })
    } else {
        assert(t@.index_of_first('|') == Some(p as int));
        let clause = trim_str(t.substring_char(0, p)).to_owned();
        let options = trim_str(t.substring_char(p + 1, n));
        assert(t@.subrange(0, p as int) =~= t@.take(p as int));
        assert(t@.subrange(p + 1, n as int) =~= t@.skip(p + 1));
        let projection = if options.is_empty() {
            None
        } else {
            Some(split_words(options))
        };
        proof {
            if !input@.contains('|') {
                assert(input@.contains(t@[p as int]));
            }
        }
        Ok(QueryRequest { clause, projection })
    }
}

} // verus!
