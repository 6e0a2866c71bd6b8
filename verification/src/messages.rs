//! The user-visible reply and notice strings, rendered character for
//! character, and the decision behind the reminder command.

use vstd::prelude::*;
use vstd::string::*;
use crate::clock::days_between;
use crate::numfmt::{i32_to_string, i64_to_string, int_to_dec};
use crate::text::append_str;

verus! {

/// The acknowledgement of a fresh account binding.
pub open spec fn bind_message_spec(user_id: int, aoe4_id: int) -> Seq<char> {
    "綁定discord帳號 `"@ + int_to_dec(user_id) + "` 與世紀帝國四帳號 `"@ + int_to_dec(
        aoe4_id,
    ) + "` "@
}

/// Renders the acknowledgement of a fresh account binding.
pub fn bind_message(user_id: i64, aoe4_id: i64) -> (r: String)
    ensures
        r@ == bind_message_spec(user_id as int, aoe4_id as int),
{
    let mut r = String::from_str("綁定discord帳號 `");
    let user = i64_to_string(user_id);
    append_str(&mut r, user.as_str());
    append_str(&mut r, "` 與世紀帝國四帳號 `");
    let aoe4 = i64_to_string(aoe4_id);
    append_str(&mut r, aoe4.as_str());
    append_str(&mut r, "` ");
    proof {
        assert(r@ =~= bind_message_spec(user_id as int, aoe4_id as int));
    }
    r
}

/// The acknowledgement of a newly set reminder threshold.
pub open spec fn set_reminder_message_spec(days: int) -> Seq<char> {
    "新增天梯提醒 如果"@ + int_to_dec(days) + "天沒打單挑積分將會有溫馨提示 敬請期待"@
}

/// Renders the acknowledgement of a newly set reminder threshold.
pub fn set_reminder_message(days: i32) -> (r: String)
    ensures
        r@ == set_reminder_message_spec(days as int),
{
    let mut r = String::from_str("新增天梯提醒 如果");
    let d = i32_to_string(days);
    append_str(&mut r, d.as_str());
    append_str(&mut r, "天沒打單挑積分將會有溫馨提示 敬請期待");
    proof {
        assert(r@ =~= set_reminder_message_spec(days as int));
    }
    r
}

/// The acknowledgement of a cleared reminder.
pub fn clear_reminder_message() -> (r: String)
    ensures
        r@ == "已解除天梯提醒"@,
{
    String::from_str("已解除天梯提醒")
}

/// The refusal sent when a member without a binding asks for reminders.
pub fn bind_required_message() -> (r: String)
    ensures
        r@ == "需要先綁定天梯榜才能夠使用提醒功能！"@,
{
    String::from_str("需要先綁定天梯榜才能夠使用提醒功能！")
}

/// The private notice sent to an idle member, carrying their idle days.
pub open spec fn reminder_notice_spec(days: int) -> Seq<char> {
    "溫馨提醒：已經耍廢"@ + int_to_dec(days) + "天囉 該爬天梯了！"@
}

/// Renders the private notice for a member idle for the given day count.
pub fn reminder_notice(days: i64) -> (r: String)
    ensures
        r@ == reminder_notice_spec(days as int),
{
    let mut r = String::from_str("溫馨提醒：已經耍廢");
    let d = i64_to_string(days);
    append_str(&mut r, d.as_str());
    append_str(&mut r, "天囉 該爬天梯了！");
    proof {
        assert(r@ =~= reminder_notice_spec(days as int));
    }
    r
}

/// Renders the private notice for a member last seen playing at
/// `last_played`, as of `now`.
pub fn reminder_notice_at(last_played: i64, now: i64) -> (r: String)
    ensures
        r@ == reminder_notice_spec(days_between(last_played as int, now as int)),
{
    let days = crate::clock::elapsed_days(last_played, now);
    reminder_notice(days)
}

/// What the reminder command does for one member.
#[derive(Debug, PartialEq, Eq, Structural)]
pub enum RemindAction {
    /// The member holds no binding: refuse the request.
    Reject,
    /// Set the member's threshold to this many days.
    Enable(i32),
    /// Clear the member's reminder.
    Disable,
}

/// Decides the reminder command: a member without a binding is refused; a
/// positive day count sets the threshold; any other count clears it.
pub fn decide_remind(has_binding: bool, days: i32) -> (a: RemindAction)
    ensures
        a == if !has_binding {
            RemindAction::Reject
        } else if days > 0 {
            RemindAction::Enable(days)
        } else {
            RemindAction::Disable
        },
{
    if !has_binding {
        RemindAction::Reject
    } else if days > 0 {
        RemindAction::Enable(days)
    } else {
        RemindAction::Disable
    }
}

} // verus!
