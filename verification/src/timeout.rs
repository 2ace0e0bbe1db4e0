//! The timeout calculator: the pure map from one captured event and the
//! configuration snapshot to either a timed display directive or nothing.

use vstd::prelude::*;
use vstd::string::StrSliceExecFns;

use crate::config::{ConfigView, NotifierConfig};
use crate::event::{DirectiveView, DisplayDirective, EventView, NotificationEvent};

verus! {

/// Whether `app` occurs in the list of skipped applications.
pub open spec fn is_skipped(app: Seq<char>, skipped: Seq<Seq<char>>) -> bool {
    exists|i: int| 0 <= i < skipped.len() && skipped[i] == app
}

/// The display timeout for an event whose title and body together hold
/// `text_len` characters.
///
/// With dynamic timeouts off this is the configured default, whatever the
/// text length.  With them on, the estimate is the time to read the text at
/// `reading_speed` words per minute, five characters to the word and sixty
/// seconds to the minute — so `12 * text_len / reading_speed` seconds,
/// rounded up — clamped into `[min_timeout, max_timeout]`.  A reading speed
/// of zero means the text is never read to the end: the estimate is taken
/// as beyond every bound, and the maximum applies.
pub open spec fn spec_timeout(text_len: int, c: ConfigView) -> u64 {
    if !c.dynamic_timeout {
        c.default_timeout
    } else if c.reading_speed == 0 {
        c.max_timeout
    } else {
        let est = (text_len * 12 + c.reading_speed - 1) / (c.reading_speed as int);
        if est < c.min_timeout {
            c.min_timeout
        } else if est > c.max_timeout {
            c.max_timeout
        } else {
            est as u64
        }
    }
}

/// The directive derived from an event that passed filtering.
pub open spec fn spec_directive(e: EventView, c: ConfigView) -> DirectiveView {
    DirectiveView {
        title: e.title,
        body: e.body,
        timeout: spec_timeout(e.title.len() + e.body.len() as int, c),
        target_host: c.host,
        target_port: c.port,
    }
}

/// What the calculator returns: nothing for an event whose source
/// application is skipped, the derived directive for every other event.
pub open spec fn spec_evaluate(e: EventView, c: ConfigView) -> Option<DirectiveView> {
    if is_skipped(e.source_app, c.skipped_apps) {
        None
    } else {
        Some(spec_directive(e, c))
    }
}

/// Whether `app` occurs in `skipped`.
fn is_app_skipped(app: &String, skipped: &Vec<String>) -> (r: bool)
    ensures
        r == is_skipped(app@, skipped@.map_values(|s: String| s@)),
{
    let ghost model = skipped@.map_values(|s: String| s@);
    let mut i: usize = 0;
    while i < skipped.len()
        invariant
            0 <= i <= skipped@.len(),
            model == skipped@.map_values(|s: String| s@),
            forall|j: int| 0 <= j < i ==> model[j] != app@,
        decreases skipped@.len() - i,
    {
        if skipped[i] == *app {
            proof {
                assert(model[i as int] == app@);
            }
            return true;
        }
        i += 1;
    }
    false
}

/// The timeout for an event whose title holds `title_len` characters and
/// whose body holds `body_len`.
fn compute_timeout(title_len: usize, body_len: usize, config: &NotifierConfig) -> (t: u64)
    ensures
        t == spec_timeout(title_len + body_len, config@),
{
    if !config.dynamic_timeout {
        config.default_timeout
    } else if config.reading_speed == 0 {
        config.max_timeout
    } else {
        let len: u128 = title_len as u128 + body_len as u128;
        let sp: u128 = config.reading_speed as u128;
        let est: u128 = (len * 12 + (sp - 1)) / sp;
        if est < config.min_timeout as u128 {
            config.min_timeout
        } else if est > config.max_timeout as u128 {
            config.max_timeout
        } else {
            est as u64
        }
    }
}

/// Evaluate one event against the configuration: nothing if its source
/// application is skipped, otherwise the directive that carries its text,
/// its display timeout, and the configured target endpoint.
pub fn evaluate(event: NotificationEvent, config: &NotifierConfig) -> (r: Option<DisplayDirective>)
    ensures
        match r {
            Some(d) => spec_evaluate(event@, config@) == Some(d@),
            None => spec_evaluate(event@, config@) is None,
        },
{
    if is_app_skipped(&event.source_app, &config.skipped_apps) {
        return None;
    }
    let title_len = event.title.as_str().unicode_len();
    let body_len = event.body.as_str().unicode_len();
    let timeout = compute_timeout(title_len, body_len, config);
    let d = DisplayDirective {
        title: event.title,
        body: event.body,
        timeout,
        target_host: config.host.clone(),
        target_port: config.port,
    };
    proof {
        assert(d@ =~= spec_directive(event@, config@));
    }
    Some(d)
}

/// Law: with dynamic timeouts off, every event — whatever its text length —
/// is given exactly the configured default timeout.
pub proof fn lemma_fixed_timeout(e: EventView, c: ConfigView)
    requires
        !c.dynamic_timeout,
    ensures
        spec_directive(e, c).timeout == c.default_timeout,
{
}

/// Law: with dynamic timeouts on and a well-formed clamp range, every
/// computed timeout lies between the configured minimum and maximum.
pub proof fn lemma_dynamic_timeout_bounds(e: EventView, c: ConfigView)
    requires
        c.dynamic_timeout,
        c.wf(),
    ensures
        c.min_timeout <= spec_directive(e, c).timeout <= c.max_timeout,
{
}

/// The dynamic estimate never shrinks when the text grows: more text is
/// never shown for less time.
pub proof fn lemma_timeout_monotone_in_text(len1: int, len2: int, c: ConfigView)
    requires
        0 <= len1 <= len2,
        c.dynamic_timeout,
        c.wf(),
    ensures
        spec_timeout(len1, c) <= spec_timeout(len2, c),
{
    if c.reading_speed != 0 {
        vstd::arithmetic::div_mod::lemma_div_is_ordered(
            len1 * 12 + c.reading_speed - 1,
            len2 * 12 + c.reading_speed - 1,
            c.reading_speed as int,
        );
    }
}

/// Law: an event produces no directive exactly when its source application
/// is in the skip list, and always produces one otherwise.
pub proof fn lemma_skip_filter(e: EventView, c: ConfigView)
    ensures
        spec_evaluate(e, c) is None <==> is_skipped(e.source_app, c.skipped_apps),
        !is_skipped(e.source_app, c.skipped_apps) ==> spec_evaluate(e, c) == Some(
            spec_directive(e, c),
        ),
{
}

} // verus!
