//! What the user is told about a failure: a stable code, a one-line summary and a
//! recovery action, chosen from the error text.
use vstd::prelude::*;
use vstd::utf8::is_ascii_chars;
use crate::i18n::{fill_placeholders, placeholder, tr, tr_format, translated, value_views, Catalog};
use crate::text::{
    all_ws, ascii_cased, lemma_cased_then_lower, lemma_trim_cased, lemma_trim_keeps_ascii, lemma_trim_surrounding_ws, lower,
    chars_of, contains, contains_str, lines, lines_exec, push_chars, push_str_chars, starts_with,
    replace_all, string_of, trim, trim_chars, trim_str,
};

verus! {

broadcast use vstd::string::group_string_axioms;

/// The kinds of failure the interface explains.
#[derive(Debug, Clone, Copy, PartialEq, Eq, Structural)]
pub enum UserMessageCode {
    ZoneOff,
    MissingSyncConfig,
    HueLinkButtonNotPressed,
    HueAuthRejected,
    HueBridgeUnavailable,
    HueBridgeLost,
    HueDtlsFailed,
    HueAreaConflict,
    PortalCancelled,
    PortalUnavailable,
    PortalStreamClosed,
    CaptureTimeout,
    CaptureTooDark,
    SystemSleepResume,
    Unknown,
}

/// The stable identifier of a code, as shown in `error[..]`.
pub open spec fn code_id(c: UserMessageCode) -> Seq<char> {
    match c {
        UserMessageCode::ZoneOff => "gui.zone_off"@,
        UserMessageCode::MissingSyncConfig => "gui.missing_sync_config"@,
        UserMessageCode::HueLinkButtonNotPressed => "hue.link_button_not_pressed"@,
        UserMessageCode::HueAuthRejected => "hue.auth_rejected"@,
        UserMessageCode::HueBridgeUnavailable => "hue.bridge_unavailable"@,
        UserMessageCode::HueBridgeLost => "hue.bridge_lost"@,
        UserMessageCode::HueDtlsFailed => "hue.dtls_failed"@,
        UserMessageCode::HueAreaConflict => "hue.area_conflict"@,
        UserMessageCode::PortalCancelled => "portal.cancelled"@,
        UserMessageCode::PortalUnavailable => "portal.unavailable"@,
        UserMessageCode::PortalStreamClosed => "portal.stream_closed"@,
        UserMessageCode::CaptureTimeout => "capture.timeout"@,
        UserMessageCode::CaptureTooDark => "capture.too_dark"@,
        UserMessageCode::SystemSleepResume => "system.sleep_resume"@,
        UserMessageCode::Unknown => "unknown"@,
    }
}

/// The summary of a code, untranslated.
pub open spec fn summary_text(c: UserMessageCode) -> Seq<char> {
    match c {
        UserMessageCode::ZoneOff => "Turn on the selected Entertainment zone before starting sync."@,
        UserMessageCode::MissingSyncConfig => "Bridge address, zone, and pairing keys are required before sync can start."@,
        UserMessageCode::HueLinkButtonNotPressed => "The Hue bridge button was not pressed before pairing."@,
        UserMessageCode::HueAuthRejected => "The Hue bridge rejected the saved pairing key."@,
        UserMessageCode::HueBridgeUnavailable => "The Hue bridge is unreachable."@,
        UserMessageCode::HueBridgeLost => "The Hue bridge connection was lost during sync."@,
        UserMessageCode::HueDtlsFailed => "The Hue Entertainment connection failed."@,
        UserMessageCode::HueAreaConflict => "Another Hue app may already be using this Entertainment zone."@,
        UserMessageCode::PortalCancelled => "Screen selection was cancelled."@,
        UserMessageCode::PortalUnavailable => "Screen capture is not available through the desktop portal."@,
        UserMessageCode::PortalStreamClosed => "The screen capture stream stopped."@,
        UserMessageCode::CaptureTimeout => "No screen frames arrived from the selected source."@,
        UserMessageCode::CaptureTooDark => "Screen capture is too dark to sync reliably."@,
        UserMessageCode::SystemSleepResume => "LumaWay stopped sync after the computer resumed from sleep."@,
        UserMessageCode::Unknown => "Something went wrong."@,
    }
}

/// The recovery action of a code, untranslated.
pub open spec fn action_text(c: UserMessageCode) -> Seq<char> {
    match c {
        UserMessageCode::ZoneOff => "Enable the zone switch, then start sync again."@,
        UserMessageCode::MissingSyncConfig => "Open Settings, pair the bridge, and select an Entertainment zone."@,
        UserMessageCode::HueLinkButtonNotPressed => "Press the physical button on the bridge, then press Pair again."@,
        UserMessageCode::HueAuthRejected => "Press the bridge button, then use Pair in Settings to create new keys."@,
        UserMessageCode::HueBridgeUnavailable => "Check that the bridge is powered on and reachable on the network."@,
        UserMessageCode::HueBridgeLost => "Check that the bridge is powered on and reachable, then start sync again."@,
        UserMessageCode::HueDtlsFailed => "Stop sync, wait a few seconds, then start sync again."@,
        UserMessageCode::HueAreaConflict => "Stop the other Hue sync app or choose a different Entertainment zone."@,
        UserMessageCode::PortalCancelled => "Start sync again and choose the screen or window to sync."@,
        UserMessageCode::PortalUnavailable => "Check that xdg-desktop-portal and the desktop portal backend are running."@,
        UserMessageCode::PortalStreamClosed => "Start sync again and choose the screen or window to sync."@,
        UserMessageCode::CaptureTimeout => "Start sync again and reselect the screen in the portal dialog."@,
        UserMessageCode::CaptureTooDark => "Run backend probe, then use Quality or Calibrate if needed."@,
        UserMessageCode::SystemSleepResume => "Start sync again and reselect the screen if the portal asks."@,
        UserMessageCode::Unknown => "Check the details below, then try again."@,
    }
}

/// The failures of the bridge or of its Entertainment channel.
pub open spec fn bridge_failure(c: UserMessageCode) -> bool {
    c == UserMessageCode::HueAuthRejected || c == UserMessageCode::HueLinkButtonNotPressed || c == UserMessageCode::HueBridgeUnavailable || c == UserMessageCode::HueBridgeLost || c == UserMessageCode::HueDtlsFailed || c == UserMessageCode::HueAreaConflict
}

/// The failures of the screen-cast portal or of the capture.
pub open spec fn capture_failure(c: UserMessageCode) -> bool {
    c == UserMessageCode::PortalCancelled || c == UserMessageCode::PortalUnavailable || c == UserMessageCode::PortalStreamClosed || c == UserMessageCode::CaptureTimeout || c == UserMessageCode::CaptureTooDark
}

/// The failures that starting sync again may cure.
pub open spec fn retry_helps(c: UserMessageCode) -> bool {
    c == UserMessageCode::ZoneOff || c == UserMessageCode::HueBridgeUnavailable || c == UserMessageCode::HueBridgeLost || c == UserMessageCode::HueDtlsFailed || c == UserMessageCode::HueAreaConflict || c == UserMessageCode::PortalCancelled || c == UserMessageCode::PortalUnavailable || c == UserMessageCode::PortalStreamClosed || c == UserMessageCode::CaptureTimeout || c == UserMessageCode::SystemSleepResume
}

/// The failures that a change in the settings may cure.
pub open spec fn settings_help(c: UserMessageCode) -> bool {
    c == UserMessageCode::MissingSyncConfig || c == UserMessageCode::HueLinkButtonNotPressed || c == UserMessageCode::HueAuthRejected || c == UserMessageCode::HueBridgeUnavailable || c == UserMessageCode::HueBridgeLost || c == UserMessageCode::HueAreaConflict || c == UserMessageCode::PortalUnavailable || c == UserMessageCode::CaptureTooDark
}

impl UserMessageCode {
    /// The stable identifier, such as `hue.auth_rejected`.
    pub fn as_str(self) -> (r: &'static str)
        ensures
            r@ == code_id(self),
    {
        match self {
            UserMessageCode::ZoneOff => "gui.zone_off",
            UserMessageCode::MissingSyncConfig => "gui.missing_sync_config",
            UserMessageCode::HueLinkButtonNotPressed => "hue.link_button_not_pressed",
            UserMessageCode::HueAuthRejected => "hue.auth_rejected",
            UserMessageCode::HueBridgeUnavailable => "hue.bridge_unavailable",
            UserMessageCode::HueBridgeLost => "hue.bridge_lost",
            UserMessageCode::HueDtlsFailed => "hue.dtls_failed",
            UserMessageCode::HueAreaConflict => "hue.area_conflict",
            UserMessageCode::PortalCancelled => "portal.cancelled",
            UserMessageCode::PortalUnavailable => "portal.unavailable",
            UserMessageCode::PortalStreamClosed => "portal.stream_closed",
            UserMessageCode::CaptureTimeout => "capture.timeout",
            UserMessageCode::CaptureTooDark => "capture.too_dark",
            UserMessageCode::SystemSleepResume => "system.sleep_resume",
            UserMessageCode::Unknown => "unknown",
        }
    }

    /// The summary before translation.
    pub fn summary_msgid(self) -> (r: &'static str)
        ensures
            r@ == summary_text(self),
    {
        match self {
            UserMessageCode::ZoneOff => "Turn on the selected Entertainment zone before starting sync.",
            UserMessageCode::MissingSyncConfig => "Bridge address, zone, and pairing keys are required before sync can start.",
            UserMessageCode::HueLinkButtonNotPressed => "The Hue bridge button was not pressed before pairing.",
            UserMessageCode::HueAuthRejected => "The Hue bridge rejected the saved pairing key.",
            UserMessageCode::HueBridgeUnavailable => "The Hue bridge is unreachable.",
            UserMessageCode::HueBridgeLost => "The Hue bridge connection was lost during sync.",
            UserMessageCode::HueDtlsFailed => "The Hue Entertainment connection failed.",
            UserMessageCode::HueAreaConflict => "Another Hue app may already be using this Entertainment zone.",
            UserMessageCode::PortalCancelled => "Screen selection was cancelled.",
            UserMessageCode::PortalUnavailable => "Screen capture is not available through the desktop portal.",
            UserMessageCode::PortalStreamClosed => "The screen capture stream stopped.",
            UserMessageCode::CaptureTimeout => "No screen frames arrived from the selected source.",
            UserMessageCode::CaptureTooDark => "Screen capture is too dark to sync reliably.",
            UserMessageCode::SystemSleepResume => "LumaWay stopped sync after the computer resumed from sleep.",
            UserMessageCode::Unknown => "Something went wrong.",
        }
    }

    /// The recovery action before translation.
    pub fn action_msgid(self) -> (r: &'static str)
        ensures
            r@ == action_text(self),
    {
        match self {
            UserMessageCode::ZoneOff => "Enable the zone switch, then start sync again.",
            UserMessageCode::MissingSyncConfig => "Open Settings, pair the bridge, and select an Entertainment zone.",
            UserMessageCode::HueLinkButtonNotPressed => "Press the physical button on the bridge, then press Pair again.",
            UserMessageCode::HueAuthRejected => "Press the bridge button, then use Pair in Settings to create new keys.",
            UserMessageCode::HueBridgeUnavailable => "Check that the bridge is powered on and reachable on the network.",
            UserMessageCode::HueBridgeLost => "Check that the bridge is powered on and reachable, then start sync again.",
            UserMessageCode::HueDtlsFailed => "Stop sync, wait a few seconds, then start sync again.",
            UserMessageCode::HueAreaConflict => "Stop the other Hue sync app or choose a different Entertainment zone.",
            UserMessageCode::PortalCancelled => "Start sync again and choose the screen or window to sync.",
            UserMessageCode::PortalUnavailable => "Check that xdg-desktop-portal and the desktop portal backend are running.",
            UserMessageCode::PortalStreamClosed => "Start sync again and choose the screen or window to sync.",
            UserMessageCode::CaptureTimeout => "Start sync again and reselect the screen in the portal dialog.",
            UserMessageCode::CaptureTooDark => "Run backend probe, then use Quality or Calibrate if needed.",
            UserMessageCode::SystemSleepResume => "Start sync again and reselect the screen if the portal asks.",
            UserMessageCode::Unknown => "Check the details below, then try again.",
        }
    }

    /// The summary in the user's language.
    pub fn summary(self, catalog: &Catalog) -> (r: String)
        ensures
            r@ == translated(catalog@, summary_text(self)),
    {
        tr(catalog, self.summary_msgid())
    }

    /// The recovery action in the user's language.
    pub fn action(self, catalog: &Catalog) -> (r: String)
        ensures
            r@ == translated(catalog@, action_text(self)),
    {
        tr(catalog, self.action_msgid())
    }

    /// Failures of the bridge or of its Entertainment channel.
    pub fn is_bridge_error(self) -> (r: bool)
        ensures
            r == bridge_failure(self),
    {
        match self {
            UserMessageCode::HueAuthRejected | UserMessageCode::HueLinkButtonNotPressed | UserMessageCode::HueBridgeUnavailable | UserMessageCode::HueBridgeLost | UserMessageCode::HueDtlsFailed | UserMessageCode::HueAreaConflict => true,
            _ => false,
        }
    }

    /// Failures of the screen-cast portal or of the capture.
    pub fn is_portal_or_capture_error(self) -> (r: bool)
        ensures
            r == capture_failure(self),
    {
        match self {
            UserMessageCode::PortalCancelled | UserMessageCode::PortalUnavailable | UserMessageCode::PortalStreamClosed | UserMessageCode::CaptureTimeout | UserMessageCode::CaptureTooDark => true,
            _ => false,
        }
    }

    /// Failures that starting sync again may cure.
    pub fn offers_retry_action(self) -> (r: bool)
        ensures
            r == retry_helps(self),
    {
        match self {
            UserMessageCode::ZoneOff | UserMessageCode::HueBridgeUnavailable | UserMessageCode::HueBridgeLost | UserMessageCode::HueDtlsFailed | UserMessageCode::HueAreaConflict | UserMessageCode::PortalCancelled | UserMessageCode::PortalUnavailable | UserMessageCode::PortalStreamClosed | UserMessageCode::CaptureTimeout | UserMessageCode::SystemSleepResume => true,
            _ => false,
        }
    }

    /// Failures that a change in the settings may cure.
    pub fn offers_settings_action(self) -> (r: bool)
        ensures
            r == settings_help(self),
    {
        match self {
            UserMessageCode::MissingSyncConfig | UserMessageCode::HueLinkButtonNotPressed | UserMessageCode::HueAuthRejected | UserMessageCode::HueBridgeUnavailable | UserMessageCode::HueBridgeLost | UserMessageCode::HueAreaConflict | UserMessageCode::PortalUnavailable | UserMessageCode::CaptureTooDark => true,
            _ => false,
        }
    }

}

/// The code of a lower-cased error text: the first rule whose phrases occur decides.
pub open spec fn classify_lowered_text(l: Seq<char>) -> UserMessageCode {
    if contains(l, "zone is off"@) {
        UserMessageCode::ZoneOff
    } else if contains(l, "bridge address, zone, and keys are required"@) || contains(l, "zone, bridge address, or application key missing"@) || contains(l, "bridge address and application key are required"@) {
        UserMessageCode::MissingSyncConfig
    } else if contains(l, "link button not pressed"@) || contains(l, "bridge button was not pressed"@) || contains(l, "press the bridge button"@) {
        UserMessageCode::HueLinkButtonNotPressed
    } else if contains(l, "hue bridge authentication failed"@) || contains(l, "saved hue application key was rejected"@) || contains(l, "unauthorized user"@) {
        UserMessageCode::HueAuthRejected
    } else if contains(l, "entertainment area"@) && (contains(l, "already"@) || contains(l, "active"@) || contains(l, "in use"@) || contains(l, "conflict"@)) {
        UserMessageCode::HueAreaConflict
    } else if contains(l, "bridge lost during sync"@) || contains(l, "hue bridge connection was lost during sync"@) {
        UserMessageCode::HueBridgeLost
    } else if contains(l, "hue entertainment dtls failed"@) || contains(l, "dtls connect attempt failed"@) || contains(l, "dtls handshake"@) {
        UserMessageCode::HueDtlsFailed
    } else if contains(l, "hue request failed"@) || contains(l, "connection refused"@) || contains(l, "connection timed out"@) || contains(l, "no route to host"@) || contains(l, "network is unreachable"@) {
        UserMessageCode::HueBridgeUnavailable
    } else if contains(l, "portal returned no streams"@) || (contains(l, "portal"@) && (contains(l, "cancel"@) || contains(l, "denied"@))) {
        UserMessageCode::PortalCancelled
    } else if contains(l, "portal error"@) || contains(l, "org.freedesktop.portal"@) || contains(l, "screencast interface"@) || contains(l, "xdg-desktop-portal"@) {
        UserMessageCode::PortalUnavailable
    } else if contains(l, "capture timed out waiting for a frame"@) {
        UserMessageCode::CaptureTimeout
    } else if contains(l, "portal stream stopped"@) || contains(l, "screen capture stream stopped"@) {
        UserMessageCode::PortalStreamClosed
    } else if contains(l, "system sleep detected"@) || contains(l, "computer resumed from sleep"@) || contains(l, "sync stopped after resume"@) {
        UserMessageCode::SystemSleepResume
    } else if contains(l, "capture_too_dark"@) || contains(l, "dark frames"@) || contains(l, "returns black"@) {
        UserMessageCode::CaptureTooDark
    } else {
        UserMessageCode::Unknown
    }
}

/// `str::to_lowercase`: full Unicode lower-casing, a function of the text alone.
pub uninterp spec fn unicode_lowercase(s: Seq<char>) -> Seq<char>;

/// Lower-casing as `str::to_lowercase` does it: on ASCII text the ASCII lower-casing, else
/// the named Unicode lower-casing.
pub open spec fn text_lowercase(s: Seq<char>) -> Seq<char> {
    if is_ascii_chars(s) {
        lower(s)
    } else {
        unicode_lowercase(s)
    }
}

/// Lower-cases a text with `str::to_lowercase`; the result is named `unicode_lowercase`. On
/// ASCII text Unicode lower-casing maps `A`-`Z` to `a`-`z` and keeps every other character,
/// as `str::to_ascii_lowercase` does (its documentation points to `to_lowercase` for
/// lower-casing non-ASCII characters in addition).
#[verifier::external_body]
pub(crate) fn lowercase_text(s: &str) -> (r: String)
    ensures
        r@ == unicode_lowercase(s@),
        is_ascii_chars(s@) ==> r@ == lower(s@),
{
    s.to_lowercase()
}

/// The code of an error text that has already been lower-cased.
pub fn classify_lowered(lowered: &str) -> (r: UserMessageCode)
    ensures
        r == classify_lowered_text(lowered@),
{
    let l = chars_of(lowered);
    if contains_str(&l, "zone is off") {
        UserMessageCode::ZoneOff
    } else if contains_str(&l, "bridge address, zone, and keys are required") || contains_str(&l, "zone, bridge address, or application key missing") || contains_str(&l, "bridge address and application key are required") {
        UserMessageCode::MissingSyncConfig
    } else if contains_str(&l, "link button not pressed") || contains_str(&l, "bridge button was not pressed") || contains_str(&l, "press the bridge button") {
        UserMessageCode::HueLinkButtonNotPressed
    } else if contains_str(&l, "hue bridge authentication failed") || contains_str(&l, "saved hue application key was rejected") || contains_str(&l, "unauthorized user") {
        UserMessageCode::HueAuthRejected
    } else if contains_str(&l, "entertainment area") && (contains_str(&l, "already") || contains_str(&l, "active") || contains_str(&l, "in use") || contains_str(&l, "conflict")) {
        UserMessageCode::HueAreaConflict
    } else if contains_str(&l, "bridge lost during sync") || contains_str(&l, "hue bridge connection was lost during sync") {
        UserMessageCode::HueBridgeLost
    } else if contains_str(&l, "hue entertainment dtls failed") || contains_str(&l, "dtls connect attempt failed") || contains_str(&l, "dtls handshake") {
        UserMessageCode::HueDtlsFailed
    } else if contains_str(&l, "hue request failed") || contains_str(&l, "connection refused") || contains_str(&l, "connection timed out") || contains_str(&l, "no route to host") || contains_str(&l, "network is unreachable") {
        UserMessageCode::HueBridgeUnavailable
    } else if contains_str(&l, "portal returned no streams") || (contains_str(&l, "portal") && (contains_str(&l, "cancel") || contains_str(&l, "denied"))) {
        UserMessageCode::PortalCancelled
    } else if contains_str(&l, "portal error") || contains_str(&l, "org.freedesktop.portal") || contains_str(&l, "screencast interface") || contains_str(&l, "xdg-desktop-portal") {
        UserMessageCode::PortalUnavailable
    } else if contains_str(&l, "capture timed out waiting for a frame") {
        UserMessageCode::CaptureTimeout
    } else if contains_str(&l, "portal stream stopped") || contains_str(&l, "screen capture stream stopped") {
        UserMessageCode::PortalStreamClosed
    } else if contains_str(&l, "system sleep detected") || contains_str(&l, "computer resumed from sleep") || contains_str(&l, "sync stopped after resume") {
        UserMessageCode::SystemSleepResume
    } else if contains_str(&l, "capture_too_dark") || contains_str(&l, "dark frames") || contains_str(&l, "returns black") {
        UserMessageCode::CaptureTooDark
    } else {
        UserMessageCode::Unknown
    }
}

/// The code of an error text: it is trimmed, lower-cased and matched against known phrases.
pub fn classify_error(error: &str) -> (r: UserMessageCode)
    ensures
        r == classify_lowered_text(text_lowercase(trim(error@))),
{
    let t = trim_str(error);
    let ts = string_of(&t);
    let lowered = lowercase_text(ts.as_str());
    classify_lowered(lowered.as_str())
}

/// The non-blank lines of a text, each trimmed.
pub open spec fn detail_lines(ls: Seq<Seq<char>>) -> Seq<Seq<char>>
    decreases ls.len(),
{
    if ls.len() == 0 {
        Seq::empty()
    } else {
        let prev = detail_lines(ls.drop_last());
        let t = trim(ls.last());
        if t.len() == 0 {
            prev
        } else {
            prev.push(t)
        }
    }
}

/// Pieces joined with single spaces.
pub open spec fn join_spaced(ps: Seq<Seq<char>>) -> Seq<char>
    decreases ps.len(),
{
    if ps.len() == 0 {
        Seq::empty()
    } else if ps.len() == 1 {
        ps[0]
    } else {
        join_spaced(ps.drop_last()) + seq![' '] + ps.last()
    }
}

/// An error text on one line: its non-blank lines, trimmed and joined with spaces.
pub open spec fn details_text(error: Seq<char>) -> Seq<char> {
    join_spaced(detail_lines(lines(error)))
}

/// An error text on one line.
pub fn normalize_details(error: &str) -> (r: String)
    ensures
        r@ == details_text(error@),
{
    let chars = chars_of(error);
    let ls = lines_exec(&chars);
    let ghost lv = crate::text::views(ls@);
    let mut out = String::new();
    let mut any = false;
    for i in 0..ls.len()
        invariant
            lv == crate::text::views(ls@),
            lv == lines(error@),
            any == (detail_lines(lv.take(i as int)).len() > 0),
            out@ == join_spaced(detail_lines(lv.take(i as int))),
    {
        assert(lv.take(i + 1).drop_last() =~= lv.take(i as int));
        assert(lv.take(i + 1).last() == ls@[i as int]@);
        let t = trim_chars(&ls[i]);
        if t.len() > 0 {
            let ghost prev = detail_lines(lv.take(i as int));
            assert(prev.push(t@).drop_last() =~= prev);
            if any {
                crate::text::push_char(&mut out, ' ');
            }
            push_chars(&mut out, &t);
            if !any {
                assert(out@ =~= join_spaced(prev.push(t@)));
            }
            any = true;
        }
    }
    assert(lv.take(ls.len() as int) =~= lv);
    out
}

/// The first line of a user error: `error[<code>]: `.
pub open spec fn user_error_prefix(c: UserMessageCode) -> Seq<char> {
    "error["@ + code_id(c) + "]: "@
}

/// The message that carries the details of an unknown error.
pub open spec fn details_message() -> Seq<char> {
    "Details: {details}"@
}

/// The details line of an unknown error: the translated `Details: {details}` with the
/// details filled in.
pub open spec fn details_line(entries: Seq<(Seq<char>, Seq<char>)>, details: Seq<char>) -> Seq<char> {
    fill_placeholders(translated(entries, details_message()), seq![("details"@, details)])
}

/// The user's explanation of a failure with code `c`: `error[<code>]: <summary>`, the action
/// on the next line, and for an unknown error with details the details line; every line ends
/// with a newline, and summary, action and the details label are translated with `entries`.
pub open spec fn user_error_text(c: UserMessageCode, entries: Seq<(Seq<char>, Seq<char>)>, details: Seq<char>) -> Seq<char> {
    let head = user_error_prefix(c) + translated(entries, summary_text(c)) + seq!['\n']
        + translated(entries, action_text(c)) + seq!['\n'];
    if c == UserMessageCode::Unknown && details.len() > 0 {
        head + details_line(entries, details) + seq!['\n']
    } else {
        head
    }
}

/// The user's explanation of an error text, translated with the catalog.
pub fn format_user_error(error: &str, catalog: &Catalog) -> (r: String)
    ensures
        r@ == user_error_text(
            classify_lowered_text(text_lowercase(trim(error@))),
            catalog@,
            details_text(error@),
        ),
{
    let code = classify_error(error);
    let mut text = String::new();
    push_str_chars(&mut text, "error[");
    push_str_chars(&mut text, code.as_str());
    push_str_chars(&mut text, "]: ");
    let summary = code.summary(catalog);
    push_str_chars(&mut text, summary.as_str());
    crate::text::push_char(&mut text, '\n');
    let action = code.action(catalog);
    push_str_chars(&mut text, action.as_str());
    crate::text::push_char(&mut text, '\n');
    if code == UserMessageCode::Unknown {
        let details = normalize_details(error);
        let detail_chars = chars_of(details.as_str());
        if detail_chars.len() > 0 {
            let values: Vec<(&str, &str)> = vec![("details", details.as_str())];
            assert(value_views(values@) =~= seq![("details"@, details@)]);
            let line = tr_format(catalog, "Details: {details}", values.as_slice());
            push_str_chars(&mut text, line.as_str());
            crate::text::push_char(&mut text, '\n');
        }
    }
    text
}

/// White space around an error text does not change how it is classified.
pub proof fn law_classification_ignores_surrounding_whitespace(before: Seq<char>, error: Seq<char>, after: Seq<char>)
    requires
        all_ws(before),
        all_ws(after),
    ensures
        classify_lowered_text(text_lowercase(trim(before + error + after)))
            == classify_lowered_text(text_lowercase(trim(error))),
{
    lemma_trim_surrounding_ws(before, error, after);
}

/// Classification ignores ASCII case: an ASCII error text, upper- or lower-cased, gets the
/// same code.
pub proof fn law_classification_ignores_ascii_case(error: Seq<char>, up: bool)
    requires
        is_ascii_chars(error),
    ensures
        classify_lowered_text(text_lowercase(trim(ascii_cased(error, up))))
            == classify_lowered_text(text_lowercase(trim(error))),
{
    let t = trim(error);
    lemma_trim_keeps_ascii(error);
    lemma_trim_cased(error, up);
    lemma_cased_then_lower(t, up);
}

/// Replacing in a text whose first `k` characters cannot start the pattern keeps them.
proof fn lemma_replace_skips(s: Seq<char>, pat: Seq<char>, rep: Seq<char>, k: int)
    requires
        pat.len() > 0,
        0 <= k,
        k + pat.len() <= s.len(),
        forall|i: int| 0 <= i < k ==> s[i] != pat[0],
    ensures
        replace_all(s, pat, rep) == s.subrange(0, k) + replace_all(s.subrange(k, s.len() as int), pat, rep),
    decreases k,
{
    if k == 0 {
        assert(s.subrange(0, s.len() as int) =~= s);
        assert(s.subrange(0, 0) + replace_all(s, pat, rep) =~= replace_all(s, pat, rep));
    } else {
        lemma_replace_skips(s, pat, rep, k - 1);
        let rest = s.subrange(k - 1, s.len() as int);
        assert(rest[0] == s[k - 1]);
        assert(rest.subrange(0, pat.len() as int)[0] == rest[0]);
        assert(rest.subrange(0, pat.len() as int) != pat);
        assert(rest.drop_first() =~= s.subrange(k, s.len() as int));
        assert(s.subrange(0, k - 1) + (seq![rest[0]] + replace_all(rest.drop_first(), pat, rep))
            =~= s.subrange(0, k) + replace_all(s.subrange(k, s.len() as int), pat, rep));
    }
}

/// Without translations, the details line is `Details: ` and the details.
proof fn lemma_untranslated_details_line(details: Seq<char>)
    ensures
        details_line(Seq::empty(), details) == "Details: "@ + details,
{
    reveal_strlit("Details: {details}");
    reveal_strlit("Details: ");
    reveal_strlit("details");
    let msg = details_message();
    let vals = seq![("details"@, details)];
    assert(vals.drop_last() =~= Seq::<(Seq<char>, Seq<char>)>::empty());
    let pat = placeholder("details"@);
    assert(pat =~= seq!['{', 'd', 'e', 't', 'a', 'i', 'l', 's', '}']);
    assert(fill_placeholders(msg, vals.drop_last()) == msg);
    assert(vals.last() == ("details"@, details));
    assert(fill_placeholders(msg, vals) == replace_all(msg, pat, details));
    assert(msg =~= seq!['D', 'e', 't', 'a', 'i', 'l', 's', ':', ' ', '{', 'd', 'e', 't', 'a', 'i', 'l', 's', '}']);
    lemma_replace_skips(msg, pat, details, 9);
    let tail = msg.subrange(9, 18);
    assert(tail =~= pat);
    assert(tail.subrange(0, 9) =~= pat);
    assert(tail.subrange(9, 9) =~= Seq::<char>::empty());
    assert(replace_all(Seq::<char>::empty(), pat, details) == Seq::<char>::empty());
    assert(replace_all(tail, pat, details) =~= details);
    assert(msg.subrange(0, 9) =~= "Details: "@);
}

/// Without translations, the user's explanation of a failure is `error[<code>]: <summary>`,
/// the action on the next line, and for an unknown error with details `Details: <details>`;
/// every line ends with a newline.
pub proof fn law_untranslated_user_error(c: UserMessageCode, details: Seq<char>)
    ensures
        user_error_text(c, Seq::empty(), details) == {
            let head = user_error_prefix(c) + summary_text(c) + seq!['\n'] + action_text(c) + seq!['\n'];
            if c == UserMessageCode::Unknown && details.len() > 0 {
                head + "Details: "@ + details + seq!['\n']
            } else {
                head
            }
        },
{
    lemma_untranslated_details_line(details);
    let e = Seq::<(Seq<char>, Seq<char>)>::empty();
    assert(translated(e, summary_text(c)) == summary_text(c));
    assert(translated(e, action_text(c)) == action_text(c));
}

/// Whether `s` starts with `p`, decided character by character.
proof fn lemma_prefix_decided(s: Seq<char>, p: Seq<char>)
    ensures
        starts_with(s, p) <==> (p.len() <= s.len() && forall|i: int| 0 <= i < p.len() ==> s[i] == p[i]),
{
    if p.len() <= s.len() && forall|i: int| 0 <= i < p.len() ==> s[i] == p[i] {
        assert(s.subrange(0, p.len() as int) =~= p);
    }
    if starts_with(s, p) {
        assert forall|i: int| 0 <= i < p.len() implies s[i] == p[i] by {
            assert(s.subrange(0, p.len() as int)[i] == s[i]);
        }
    }
}

/// The families of codes follow their identifiers: a bridge failure exactly when the
/// identifier starts with `hue.`, a portal or capture failure exactly when it starts with
/// `portal.` or `capture.`, and no code is both.
pub proof fn law_code_families_follow_identifiers(c: UserMessageCode)
    ensures
        bridge_failure(c) <==> starts_with(code_id(c), "hue."@),
        capture_failure(c) <==> (starts_with(code_id(c), "portal."@) || starts_with(code_id(c), "capture."@)),
        !(bridge_failure(c) && capture_failure(c)),
{
    reveal_strlit("hue.");
    reveal_strlit("portal.");
    reveal_strlit("capture.");
    match c {
        UserMessageCode::ZoneOff => {
            reveal_strlit("gui.zone_off");
            lemma_prefix_decided(code_id(c), "hue."@);
            lemma_prefix_decided(code_id(c), "portal."@);
            lemma_prefix_decided(code_id(c), "capture."@);
            assert(code_id(c)[0] == code_id(c)[0] && "hue."@[0] == 'h' && "portal."@[0] == 'p'
                && "capture."@[0] == 'c');
        },
        UserMessageCode::MissingSyncConfig => {
            reveal_strlit("gui.missing_sync_config");
            lemma_prefix_decided(code_id(c), "hue."@);
            lemma_prefix_decided(code_id(c), "portal."@);
            lemma_prefix_decided(code_id(c), "capture."@);
            assert(code_id(c)[0] == code_id(c)[0] && "hue."@[0] == 'h' && "portal."@[0] == 'p'
                && "capture."@[0] == 'c');
        },
        UserMessageCode::HueLinkButtonNotPressed => {
            reveal_strlit("hue.link_button_not_pressed");
            lemma_prefix_decided(code_id(c), "hue."@);
            lemma_prefix_decided(code_id(c), "portal."@);
            lemma_prefix_decided(code_id(c), "capture."@);
            assert(code_id(c)[0] == code_id(c)[0] && "hue."@[0] == 'h' && "portal."@[0] == 'p'
                && "capture."@[0] == 'c');
        },
        UserMessageCode::HueAuthRejected => {
            reveal_strlit("hue.auth_rejected");
            lemma_prefix_decided(code_id(c), "hue."@);
            lemma_prefix_decided(code_id(c), "portal."@);
            lemma_prefix_decided(code_id(c), "capture."@);
            assert(code_id(c)[0] == code_id(c)[0] && "hue."@[0] == 'h' && "portal."@[0] == 'p'
                && "capture."@[0] == 'c');
        },
        UserMessageCode::HueBridgeUnavailable => {
            reveal_strlit("hue.bridge_unavailable");
            lemma_prefix_decided(code_id(c), "hue."@);
            lemma_prefix_decided(code_id(c), "portal."@);
            lemma_prefix_decided(code_id(c), "capture."@);
            assert(code_id(c)[0] == code_id(c)[0] && "hue."@[0] == 'h' && "portal."@[0] == 'p'
                && "capture."@[0] == 'c');
        },
        UserMessageCode::HueBridgeLost => {
            reveal_strlit("hue.bridge_lost");
            lemma_prefix_decided(code_id(c), "hue."@);
            lemma_prefix_decided(code_id(c), "portal."@);
            lemma_prefix_decided(code_id(c), "capture."@);
            assert(code_id(c)[0] == code_id(c)[0] && "hue."@[0] == 'h' && "portal."@[0] == 'p'
                && "capture."@[0] == 'c');
        },
        UserMessageCode::HueDtlsFailed => {
            reveal_strlit("hue.dtls_failed");
            lemma_prefix_decided(code_id(c), "hue."@);
            lemma_prefix_decided(code_id(c), "portal."@);
            lemma_prefix_decided(code_id(c), "capture."@);
            assert(code_id(c)[0] == code_id(c)[0] && "hue."@[0] == 'h' && "portal."@[0] == 'p'
                && "capture."@[0] == 'c');
        },
        UserMessageCode::HueAreaConflict => {
            reveal_strlit("hue.area_conflict");
            lemma_prefix_decided(code_id(c), "hue."@);
            lemma_prefix_decided(code_id(c), "portal."@);
            lemma_prefix_decided(code_id(c), "capture."@);
            assert(code_id(c)[0] == code_id(c)[0] && "hue."@[0] == 'h' && "portal."@[0] == 'p'
                && "capture."@[0] == 'c');
        },
        UserMessageCode::PortalCancelled => {
            reveal_strlit("portal.cancelled");
            lemma_prefix_decided(code_id(c), "hue."@);
            lemma_prefix_decided(code_id(c), "portal."@);
            lemma_prefix_decided(code_id(c), "capture."@);
            assert(code_id(c)[0] == code_id(c)[0] && "hue."@[0] == 'h' && "portal."@[0] == 'p'
                && "capture."@[0] == 'c');
        },
        UserMessageCode::PortalUnavailable => {
            reveal_strlit("portal.unavailable");
            lemma_prefix_decided(code_id(c), "hue."@);
            lemma_prefix_decided(code_id(c), "portal."@);
            lemma_prefix_decided(code_id(c), "capture."@);
            assert(code_id(c)[0] == code_id(c)[0] && "hue."@[0] == 'h' && "portal."@[0] == 'p'
                && "capture."@[0] == 'c');
        },
        UserMessageCode::PortalStreamClosed => {
            reveal_strlit("portal.stream_closed");
            lemma_prefix_decided(code_id(c), "hue."@);
            lemma_prefix_decided(code_id(c), "portal."@);
            lemma_prefix_decided(code_id(c), "capture."@);
            assert(code_id(c)[0] == code_id(c)[0] && "hue."@[0] == 'h' && "portal."@[0] == 'p'
                && "capture."@[0] == 'c');
        },
        UserMessageCode::CaptureTimeout => {
            reveal_strlit("capture.timeout");
            lemma_prefix_decided(code_id(c), "hue."@);
            lemma_prefix_decided(code_id(c), "portal."@);
            lemma_prefix_decided(code_id(c), "capture."@);
            assert(code_id(c)[0] == code_id(c)[0] && "hue."@[0] == 'h' && "portal."@[0] == 'p'
                && "capture."@[0] == 'c');
        },
        UserMessageCode::CaptureTooDark => {
            reveal_strlit("capture.too_dark");
            lemma_prefix_decided(code_id(c), "hue."@);
            lemma_prefix_decided(code_id(c), "portal."@);
            lemma_prefix_decided(code_id(c), "capture."@);
            assert(code_id(c)[0] == code_id(c)[0] && "hue."@[0] == 'h' && "portal."@[0] == 'p'
                && "capture."@[0] == 'c');
        },
        UserMessageCode::SystemSleepResume => {
            reveal_strlit("system.sleep_resume");
            lemma_prefix_decided(code_id(c), "hue."@);
            lemma_prefix_decided(code_id(c), "portal."@);
            lemma_prefix_decided(code_id(c), "capture."@);
            assert(code_id(c)[0] == code_id(c)[0] && "hue."@[0] == 'h' && "portal."@[0] == 'p'
                && "capture."@[0] == 'c');
        },
        UserMessageCode::Unknown => {
            reveal_strlit("unknown");
            lemma_prefix_decided(code_id(c), "hue."@);
            lemma_prefix_decided(code_id(c), "portal."@);
            lemma_prefix_decided(code_id(c), "capture."@);
            assert(code_id(c)[0] == code_id(c)[0] && "hue."@[0] == 'h' && "portal."@[0] == 'p'
                && "capture."@[0] == 'c');
        },
    }
}

/// Every known failure offers a way out: starting sync again, the settings, or both; and no
/// failure is both a bridge failure and a capture failure.
pub proof fn law_known_failures_offer_recovery(c: UserMessageCode)
    ensures
        c != UserMessageCode::Unknown ==> retry_helps(c) || settings_help(c),
        !(bridge_failure(c) && capture_failure(c)),
{
}

} // verus!
