//! Transient bottom-right flash notification.
//!
//! [`FlashMessage`] carries a short-lived message and its style kind. At most
//! one message is shown; the newest replaces whatever is currently shown.
//! Times are milliseconds of a clock that the caller reads.

use vstd::prelude::*;

use crate::num::{fit_u16, larger, smaller};
use crate::rect::Rect;
use crate::style::{plain, raw_width, raw_width_of, Span, Style};
use crate::theme::Theme;

verus! {

/// Visual style of a flash message.
#[derive(Clone, Copy, Debug, PartialEq, Eq, Structural)]
pub enum FlashKind {
    Info,
    Success,
    Error,
}

/// How long a message is shown unless stated otherwise, in milliseconds.
pub const DEFAULT_DURATION: u64 = 1500;

/// A single flash notification.
#[derive(Clone, Debug)]
pub struct FlashMessage {
    pub text: String,
    pub kind: FlashKind,
    /// When the message is no longer shown.
    pub expires_at: u64,
}

/// The label of a message: its text between blanks.
pub open spec fn label_of(text: Seq<char>) -> Seq<char> {
    " "@ + text + " "@
}

/// The style of a message.
pub open spec fn badge_of(kind: FlashKind, theme: Theme) -> Style {
    match kind {
        FlashKind::Info => plain().bg_spec(theme.active).fg_spec(theme.active_text),
        FlashKind::Success => plain().bg_spec(theme.success).fg_spec(theme.success_text),
        FlashKind::Error => plain().bg_spec(theme.error).fg_spec(theme.error_text),
    }
}

fn label_text(text: &str) -> (label: String)
    ensures
        label@ == label_of(text@),
{
    let mut label = " ".to_owned();
    label.append(text);
    label.append(" ");
    label
}

impl FlashMessage {
    /// Creates a new flash that expires `dur` after `now`.
    pub fn new(text: &str, kind: FlashKind, now: u64, dur: u64) -> (flash: FlashMessage)
        requires
            now + dur <= u64::MAX,
        ensures
            flash.text@ == text@,
            flash.kind == kind,
            flash.expires_at == now + dur,
            flash.begun(now, dur),
    {
        FlashMessage { text: text.to_owned(), kind, expires_at: now + dur }
    }

    /// Creates an info flash that expires after the default duration.
    pub fn info(text: &str, now: u64) -> (flash: FlashMessage)
        requires
            now + DEFAULT_DURATION <= u64::MAX,
        ensures
            flash.text@ == text@,
            flash.kind == FlashKind::Info,
            flash.expires_at == now + DEFAULT_DURATION,
            flash.begun(now, DEFAULT_DURATION),
    {
        Self::new(text, FlashKind::Info, now, DEFAULT_DURATION)
    }

    /// Creates a success flash with the default duration.
    pub fn success(text: &str, now: u64) -> (flash: FlashMessage)
        requires
            now + DEFAULT_DURATION <= u64::MAX,
        ensures
            flash.text@ == text@,
            flash.kind == FlashKind::Success,
            flash.expires_at == now + DEFAULT_DURATION,
            flash.begun(now, DEFAULT_DURATION),
    {
        Self::new(text, FlashKind::Success, now, DEFAULT_DURATION)
    }

    /// Creates an error flash with the default duration.
    pub fn error(text: &str, now: u64) -> (flash: FlashMessage)
        requires
            now + DEFAULT_DURATION <= u64::MAX,
        ensures
            flash.text@ == text@,
            flash.kind == FlashKind::Error,
            flash.expires_at == now + DEFAULT_DURATION,
            flash.begun(now, DEFAULT_DURATION),
    {
        Self::new(text, FlashKind::Error, now, DEFAULT_DURATION)
    }

    /// The message is no longer shown.
    pub open spec fn over(&self, now: u64) -> bool {
        now >= self.expires_at
    }

    /// The message was created at a time, to be shown for a while.
    pub open spec fn begun(&self, now: u64, dur: u64) -> bool {
        self.expires_at == now + dur
    }

    /// A message is shown from when it was created, for as long as it was to be, and not
    /// again.
    pub proof fn law_messages_last_as_long_as_asked(&self, begin: u64, dur: u64, now: u64)
        requires
            begin + dur <= u64::MAX,
            self.begun(begin, dur),
            begin <= now,
        ensures
            self.over(now) <==> now - begin >= dur,
    {
    }

    /// Whether this message has expired and should no longer be displayed.
    pub fn is_expired(&self, now: u64) -> (expired: bool)
        ensures
            expired == (now >= self.expires_at),
            expired == self.over(now),
    {
        now >= self.expires_at
    }

    /// The notification at the bottom-right of `area`: where it stands, and what
    /// it shows.
    pub fn render(&self, area: Rect, theme: &Theme) -> (drawn: Option<(Rect, Span)>)
        ensures
            drawn is Some <==> area.width > 0 && area.height > 0,
            drawn matches Some((rect, label)) ==> {
                &&& is_notification_area(self.text@, area, rect)
                &&& label@ == (label_of(self.text@), badge_of(self.kind, *theme))
            },
    {
        match notification_area(self, area) {
            None => None,
            Some(rect) => {
                let style = match self.kind {
                    FlashKind::Info => theme.info_badge_style(),
                    FlashKind::Success => theme.success_badge_style(),
                    FlashKind::Error => theme.error_badge_style(),
                };
                Some((rect, Span::styled(label_text(self.text.as_str()), style)))
            },
        }
    }
}

/// A row at the bottom right of an area, as wide as the label where it fits.
pub open spec fn is_notification_area(text: Seq<char>, area: Rect, rect: Rect) -> bool {
    let width = smaller(larger(raw_width(label_of(text)) as u16 as int, 1), area.width as int);
    &&& rect.width == width
    &&& rect.height == 1
    &&& rect.x == fit_u16(area.x + (area.width - width))
    &&& rect.y == fit_u16(area.y + area.height - 1)
}

/// Bottom-right render area for a flash notification.
pub fn notification_area(flash: &FlashMessage, area: Rect) -> (rect: Option<Rect>)
    ensures
        rect is Some <==> area.width > 0 && area.height > 0,
        rect matches Some(r) ==> is_notification_area(flash.text@, area, r),
{
    if area.width == 0 || area.height == 0 {
        return None;
    }
    let label = label_text(flash.text.as_str());
    let label_width: u16 = raw_width_of(label.as_str()) as u16;
    let width: u16 = label_width.max(1).min(area.width);
    Some(
        Rect {
            x: area.x.saturating_add(area.width.saturating_sub(width)),
            y: area.y.saturating_add(area.height.saturating_sub(1)),
            width,
            height: 1,
        },
    )
}

/// Shortcut for [`FlashMessage::info`].
pub fn info(text: &str, now: u64) -> (flash: FlashMessage)
    requires
        now + DEFAULT_DURATION <= u64::MAX,
    ensures
        flash.text@ == text@,
        flash.kind == FlashKind::Info,
        flash.expires_at == now + DEFAULT_DURATION,
{
    FlashMessage::info(text, now)
}

/// Shortcut for [`FlashMessage::success`].
pub fn success(text: &str, now: u64) -> (flash: FlashMessage)
    requires
        now + DEFAULT_DURATION <= u64::MAX,
    ensures
        flash.text@ == text@,
        flash.kind == FlashKind::Success,
        flash.expires_at == now + DEFAULT_DURATION,
{
    FlashMessage::success(text, now)
}

/// Shortcut for [`FlashMessage::error`].
pub fn error(text: &str, now: u64) -> (flash: FlashMessage)
    requires
        now + DEFAULT_DURATION <= u64::MAX,
    ensures
        flash.text@ == text@,
        flash.kind == FlashKind::Error,
        flash.expires_at == now + DEFAULT_DURATION,
{
    FlashMessage::error(text, now)
}

/// A notification is one row high and stands at the bottom right of its area, inside of
/// it; it shows the text between blanks.
pub proof fn law_notifications_stand_at_the_bottom_right(text: Seq<char>, area: Rect, rect: Rect)
    requires
        area.width > 0,
        area.height > 0,
        area.x + area.width <= u16::MAX,
        area.y + area.height <= u16::MAX,
        is_notification_area(text, area, rect),
    ensures
        rect.x + rect.width == area.x + area.width,
        rect.y + rect.height == area.y + area.height,
        1 <= rect.width <= area.width,
        rect.height == 1,
        label_of(text).len() == text.len() + 2,
        label_of(text).subrange(1, text.len() as int + 1) == text,
{
    reveal_strlit(" ");
    assert(label_of(text).subrange(1, text.len() as int + 1) =~= text);
}

/// An error is shown in the color of errors, a success in that of successes.
pub proof fn law_badges_show_the_kind(kind: FlashKind, theme: Theme)
    ensures
        kind == FlashKind::Error ==> badge_of(kind, theme).bg == Some(theme.error),
        kind == FlashKind::Success ==> badge_of(kind, theme).bg == Some(theme.success),
        kind == FlashKind::Info ==> badge_of(kind, theme).bg == Some(theme.active),
{
}

} // verus!
