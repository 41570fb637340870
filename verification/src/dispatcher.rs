//! The dispatcher's decision logic: interpreting what the notifier
//! reports back when links were offered as numbered actions.  The
//! subprocess fan-out itself happens outside the verified core; each
//! task calls in here with the response it read.

use vstd::prelude::*;
use vstd::string::StrSliceExecFns;
use crate::errors::DispatchError;
use crate::event::FormattedNotification;
use crate::resolver::digits_val;
use crate::resolver::minutes_token_ok;
use crate::resolver::parse_minutes;

verus! {

/// A response line that picks the action with this index: a decimal
/// number naming an offered action.
pub open spec fn picks_action(line: Seq<char>, link_count: int) -> bool {
    minutes_token_ok(line) && digits_val(line) < link_count
}

/// Interpret the first line the notifier reports after actions were
/// offered.  The empty line is the dismissal sentinel; a decimal index
/// of an offered action picks it; anything else fails the task with
/// `InvalidNotifierResponse`.
pub fn interpret_notifier_response(link_count: usize, line: &str) -> (r: Result<
    Option<usize>,
    DispatchError,
>)
    ensures
        line@.len() == 0 ==> (r matches Ok(o) && o is None),
        line@.len() > 0 && picks_action(line@, link_count as int) ==> (r matches Ok(o) && o
            matches Some(i) && i == digits_val(line@)),
        line@.len() > 0 && !picks_action(line@, link_count as int) ==> (r matches Err(e) && e
            == DispatchError::InvalidNotifierResponse),
{
    if line.unicode_len() == 0 {
        return Ok(None);
    }
    match parse_minutes(line) {
        None => Err(DispatchError::InvalidNotifierResponse),
        Some(v) => {
            if v < link_count as u64 {
                Ok(Some(v as usize))
            } else {
                Err(DispatchError::InvalidNotifierResponse)
            }
        },
    }
}

impl FormattedNotification {
    /// The link to open for a notifier response, if any: the reported
    /// index picks from the sorted, deduplicated link list.
    pub fn resolve_action(&self, line: &str) -> (r: Result<Option<String>, DispatchError>)
        ensures
            line@.len() == 0 ==> (r matches Ok(o) && o is None),
            line@.len() > 0 && picks_action(line@, self.extracted_links@.len() as int) ==> (r
                matches Ok(o) && o matches Some(l) && l@ == self.extracted_links@[digits_val(
                line@,
            )]@),
            line@.len() > 0 && !picks_action(line@, self.extracted_links@.len() as int) ==> (r
                matches Err(e) && e == DispatchError::InvalidNotifierResponse),
    {
        match interpret_notifier_response(self.extracted_links.len(), line) {
            Ok(None) => Ok(None),
            Ok(Some(i)) => Ok(Some(self.extracted_links[i].clone())),
            Err(e) => Err(e),
        }
    }
}

} // verus!
