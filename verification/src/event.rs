//! Event records of the pipeline.

use vstd::prelude::*;
use vstd::string::StringExecFns;

verus! {

/// One calendar event as delivered by the external source.  Immutable
/// once constructed; each dispatch task works on its own owned copy.
#[derive(Debug)]
pub struct KhalEvent {
    pub title: String,
    pub description: String,
    pub start_end_time_style: String,
    pub repeat_symbol: String,
    pub all_day: bool,
}

/// The display title: the event title, with the repeat marker appended
/// after a single space when the marker is non-empty.
pub open spec fn formatted_title_spec(title: Seq<char>, marker: Seq<char>) -> Seq<char> {
    if marker.len() == 0 {
        title
    } else {
        title + " "@ + marker
    }
}

impl KhalEvent {
    /// Whether the event spans whole days rather than a timed range.
    pub fn is_all_day(&self) -> (r: bool)
        ensures
            r == self.all_day,
    {
        self.all_day
    }

    /// Title shown on the notification, with the repeat marker appended
    /// when one is present.
    pub fn formatted_title(&self) -> (r: String)
        ensures
            r@ == formatted_title_spec(self.title@, self.repeat_symbol@),
    {
        if self.repeat_symbol.as_str().is_empty() {
            self.title.clone()
        } else {
            let r = self.title.clone().concat(" ").concat(self.repeat_symbol.as_str());
            proof {
                assert(r@ =~= formatted_title_spec(self.title@, self.repeat_symbol@));
            }
            r
        }
    }
}

/// What the formatter hands to the dispatcher for one surviving event.
#[derive(Debug)]
pub struct FormattedNotification {
    pub display_title: String,
    pub display_body: String,
    pub extracted_links: Vec<String>,
}

} // verus!
