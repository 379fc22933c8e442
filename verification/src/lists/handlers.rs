//! Minting and redeeming invite codes.
//!
//! Redeeming a code grants membership of somebody else's list, so joining is a credential
//! check: every failure is answered alike, failures are counted against the account, and a
//! dead code that is probed is destroyed.

use crate::error::{outcome, AppError, ErrorView};
use crate::instant::{Instant, FIRST_SECOND, LAST_SECOND};
use crate::lists::limits::INVITE_CODE_GENERATION_ATTEMPTS;
use crate::sync::grocery::grocery_lists::{member_id, member_row_id};
use crate::text::{ascii_upper, trim, trimmed, upper_text};
use vstd::prelude::*;

verus! {

/// The answer every failed join gets.
pub const JOIN_FAILURE_MESSAGE: &'static str = "Invalid or expired invite code";

/// The length of a code, in characters.
pub const CODE_CHARS: usize = 8;

/// The role a code grants.
pub const JOINED_ROLE: &'static str = "MEMBER";

#[derive(Debug)]
pub struct InviteRequest {
    pub list_id: String,
}

#[derive(Debug)]
pub struct InviteResponse {
    pub code: String,
}

#[derive(Debug)]
pub struct JoinRequest {
    pub code: String,
}

#[derive(Debug)]
pub struct JoinResponse {
    pub success: bool,
    pub list_id: String,
}

/// Whether a caller may invite to a list: only its members may.
pub fn check_member(list_id: &str, is_member: bool) -> (r: Result<(), AppError>)
    ensures
        outcome(r) == (if is_member {
            Ok(())
        } else {
            Err::<(), ErrorView>(
                ErrorView::Forbidden("User is not a member of grocery list "@ + list_id@),
            )
        }),
{
    if is_member {
        Ok(())
    } else {
        let mut s = "User is not a member of grocery list ".to_owned();
        s.append(list_id);
        Err(AppError::Forbidden(s))
    }
}

/// Whether an account may have one more live code. Counted after the list's previous code
/// has been retired, so that replacing a code is never refused.
pub fn check_outstanding(outstanding: i64, max: i64) -> (r: Result<(), AppError>)
    ensures
        outcome(r) == (if outstanding >= max {
            Err::<(), ErrorView>(
                ErrorView::TooManyRequests(
                    "Too many outstanding invites; wait for one to expire or be used"@,
                ),
            )
        } else {
            Ok(())
        }),
{
    if outstanding >= max {
        Err(
            AppError::TooManyRequests(
                "Too many outstanding invites; wait for one to expire or be used".to_owned(),
            ),
        )
    } else {
        Ok(())
    }
}

/// Whether a byte is an ASCII digit or letter.
pub open spec fn is_alphanumeric(b: u8) -> bool {
    0x30 <= b <= 0x39 || 0x41 <= b <= 0x5a || 0x61 <= b <= 0x7a
}

/// `rand::rng` sampling `rand::distr::Alphanumeric`: one random character. Of every draw it
/// is claimed that it is an ASCII digit or letter; nothing is claimed of which.
#[verifier::external_body]
fn random_alphanumeric() -> (b: u8)
    ensures
        is_alphanumeric(b),
{
    rand::RngExt::sample(&mut rand::rng(), rand::distr::Alphanumeric)
}

/// The character a drawn byte stands for in a code: codes have no lower case.
pub open spec fn code_char(b: u8) -> char {
    ascii_upper(b as char)
}

/// The code made of drawn bytes.
pub open spec fn code_text(bytes: Seq<u8>) -> Seq<char> {
    bytes.map_values(|b: u8| code_char(b))
}

/// The code made of drawn bytes.
pub fn code_of(bytes: &Vec<u8>) -> (code: String)
    requires
        forall|i: int| 0 <= i < bytes@.len() ==> is_alphanumeric(#[trigger] bytes@[i]),
    ensures
        code@ == code_text(bytes@),
{
    let mut code = "".to_owned();
    let mut i: usize = 0;
    proof {
        reveal_strlit("");
        assert(code@ =~= code_text(bytes@.take(0)));
    }
    while i < bytes.len()
        invariant
            i <= bytes.len(),
            forall|i: int| 0 <= i < bytes@.len() ==> is_alphanumeric(#[trigger] bytes@[i]),
            code@ == code_text(bytes@.take(i as int)),
        decreases bytes.len() - i,
    {
        let b: u8 = bytes[i];
        let upper: u8 = if b >= 0x61 {
            b - 0x20
        } else {
            b
        };
        assert(is_alphanumeric(bytes@[i as int]));
        assert(upper as char == code_char(b));
        code.push(upper as char);
        assert(code@ =~= code_text(bytes@.take(i + 1)));
        i = i + 1;
    }
    assert(bytes@.take(i as int) =~= bytes@);
    code
}

/// Whether a text has the form of a code: so many upper-case letters and digits.
pub open spec fn is_code(s: Seq<char>) -> bool {
    s.len() == CODE_CHARS && forall|i: int|
        0 <= i < s.len() ==> ('0' <= #[trigger] s[i] <= '9' || 'A' <= s[i] <= 'Z')
}

/// A random code.
pub fn draw_code() -> (code: String)
    ensures
        is_code(code@),
{
    let mut bytes: Vec<u8> = Vec::new();
    while bytes.len() < CODE_CHARS
        invariant
            bytes@.len() <= CODE_CHARS,
            forall|i: int| 0 <= i < bytes@.len() ==> is_alphanumeric(#[trigger] bytes@[i]),
        decreases CODE_CHARS - bytes.len(),
    {
        bytes.push(random_alphanumeric());
    }
    let code = code_of(&bytes);
    proof {
        assert forall|i: int| 0 <= i < code@.len() implies ('0' <= #[trigger] code@[i] <= '9' || 'A'
            <= code@[i] <= 'Z') by {
            assert(is_alphanumeric(bytes@[i]));
            assert(code@[i] == code_char(bytes@[i]));
        }
    }
    code
}

/// Minting under way: how many draws have been made.
pub struct Minting {
    drawn: usize,
}

impl Minting {
    /// The draws that were made.
    pub closed spec fn view(&self) -> nat {
        self.drawn as nat
    }

    /// No draw yet.
    pub fn begin() -> (m: Minting)
        ensures
            m@ == 0,
    {
        Minting { drawn: 0 }
    }

    /// The next code to try, or the refusal once too many were taken: that is no bad luck but
    /// a broken table.
    pub fn draw(&mut self) -> (r: Result<String, AppError>)
        ensures
            match r {
                Ok(code) => old(self)@ < INVITE_CODE_GENERATION_ATTEMPTS && is_code(code@)
                    && final(self)@ == old(self)@ + 1,
                Err(e) => old(self)@ >= INVITE_CODE_GENERATION_ATTEMPTS && final(self)@ == old(
                    self,
                )@ && e@ == ErrorView::Internal("Could not allocate an invite code"@),
            },
    {
        if self.drawn >= INVITE_CODE_GENERATION_ATTEMPTS {
            return Err(AppError::Internal("Could not allocate an invite code".to_owned()));
        }
        self.drawn = self.drawn + 1;
        Ok(draw_code())
    }
}

/// An instant so many minutes on.
pub open spec fn minutes_on(at: Instant, minutes: int) -> Option<Instant> {
    let secs = at.secs + minutes * 60;
    if FIRST_SECOND <= secs <= LAST_SECOND {
        Some(Instant { secs: secs as i64, nanos: at.nanos })
    } else {
        None
    }
}

fn shifted(at: Instant, minutes: i64, back: bool) -> (r: Option<Instant>)
    requires
        at.wf(),
        minutes > 0,
    ensures
        r == minutes_on(
            at,
            if back {
                -(minutes as int)
            } else {
                minutes as int
            },
        ),
{
    match minutes.checked_mul(60) {
        None => None,
        Some(span) => {
            let secs: Option<i64> = if back {
                at.secs.checked_sub(span)
            } else {
                at.secs.checked_add(span)
            };
            match secs {
                Some(secs) => if FIRST_SECOND <= secs && secs <= LAST_SECOND {
                    Some(Instant { secs, nanos: at.nanos })
                } else {
                    None
                },
                None => None,
            }
        },
    }
}

/// When a code minted now lapses, where the calendar reaches that far.
pub fn invite_expiry(now: Instant, ttl_mins: i64) -> (at: Option<Instant>)
    requires
        now.wf(),
        ttl_mins > 0,
    ensures
        at == minutes_on(now, ttl_mins as int),
{
    shifted(now, ttl_mins, false)
}

/// Since when an account's failed joins count, where the calendar reaches that far back.
pub fn failures_since(now: Instant, window_mins: i64) -> (at: Option<Instant>)
    requires
        now.wf(),
        window_mins > 0,
    ensures
        at == minutes_on(now, -(window_mins as int)),
{
    shifted(now, window_mins, true)
}

/// A code as it is looked up: white space around it and the case of its letters do not count.
pub open spec fn normalised(code: Seq<char>) -> Seq<char> {
    upper_text(trimmed(code))
}

/// A code as it is looked up.
pub fn normalise_code(code: &str) -> (s: String)
    ensures
        s@ == normalised(code@),
{
    trim(code).to_ascii_uppercase()
}

/// Whether an account may try a code at all. Asked before the code is looked up, so that a
/// locked-out account learns nothing of it.
pub fn check_join_failures(failures: i64, max: i64) -> (r: Result<(), AppError>)
    ensures
        outcome(r) == (if failures >= max {
            Err::<(), ErrorView>(
                ErrorView::TooManyRequests("Too many invalid invite codes; try again later"@),
            )
        } else {
            Ok(())
        }),
{
    if failures >= max {
        Err(
            AppError::TooManyRequests("Too many invalid invite codes; try again later".to_owned()),
        )
    } else {
        Ok(())
    }
}

/// A code that was found.
#[derive(Debug)]
pub struct Invite {
    pub list_id: String,
    pub expires_at: Instant,
    /// How often it was refused.
    pub attempts: i32,
}

/// What presenting a code comes to.
#[derive(Debug)]
pub enum JoinVerdict {
    /// There is no such code. The failure counts against the account.
    Unknown,
    /// The code has lapsed, and has been probed so often that it is destroyed. The failure
    /// counts against the account.
    Destroyed,
    /// The code has lapsed and stays, with one more probe counted against it. The failure
    /// counts against the account.
    Probed(i32),
    /// The caller joins the list under this membership id, and the code is used up.
    Joined { list_id: String, member_id: String },
}

/// [`JoinVerdict`] with its texts as mathematical text.
pub enum JoinView {
    Unknown,
    Destroyed,
    Probed(i32),
    Joined { list_id: Seq<char>, member_id: Seq<char> },
}

impl View for JoinVerdict {
    type V = JoinView;

    open spec fn view(&self) -> JoinView {
        match *self {
            JoinVerdict::Unknown => JoinView::Unknown,
            JoinVerdict::Destroyed => JoinView::Destroyed,
            JoinVerdict::Probed(n) => JoinView::Probed(n),
            JoinVerdict::Joined { list_id, member_id } => JoinView::Joined {
                list_id: list_id@,
                member_id: member_id@,
            },
        }
    }
}

/// What presenting a code comes to.
pub open spec fn redemption(
    invite: Option<Invite>,
    user: Seq<char>,
    now: Instant,
    max_attempts: i32,
) -> JoinView {
    match invite {
        None => JoinView::Unknown,
        Some(invite) => if now.is_after(invite.expires_at) {
            if invite.attempts + 1 >= max_attempts {
                JoinView::Destroyed
            } else {
                JoinView::Probed((invite.attempts + 1) as i32)
            }
        } else {
            JoinView::Joined { list_id: invite.list_id@, member_id: member_id(invite.list_id@, user) }
        },
    }
}

/// What presenting a code comes to.
pub fn redeem(invite: &Option<Invite>, user_id: &str, now: Instant, max_attempts: i32) -> (v:
    JoinVerdict)
    requires
        invite matches Some(i) ==> now.is_after(i.expires_at) ==> i.attempts < i32::MAX,
    ensures
        v@ == redemption(*invite, user_id@, now, max_attempts),
{
    match invite {
        None => JoinVerdict::Unknown,
        Some(invite) => if now.after(invite.expires_at) {
            let attempts: i32 = invite.attempts + 1;
            if attempts >= max_attempts {
                JoinVerdict::Destroyed
            } else {
                JoinVerdict::Probed(attempts)
            }
        } else {
            JoinVerdict::Joined {
                list_id: invite.list_id.clone(),
                member_id: member_row_id(invite.list_id.as_str(), user_id),
            }
        },
    }
}

/// What the caller is told.
pub open spec fn join_answer(v: JoinView) -> Result<Seq<char>, ErrorView> {
    match v {
        JoinView::Joined { list_id, .. } => Ok(list_id),
        _ => Err(ErrorView::Forbidden(JOIN_FAILURE_MESSAGE@)),
    }
}

/// What the caller is told: the list they joined, or the one answer to every failure.
pub fn answer_join(v: &JoinVerdict) -> (r: Result<JoinResponse, AppError>)
    ensures
        match r {
            Ok(response) => response.success && join_answer(v@) == Ok::<Seq<char>, ErrorView>(
                response.list_id@,
            ),
            Err(e) => join_answer(v@) == Err::<Seq<char>, ErrorView>(e@),
        },
{
    match v {
        JoinVerdict::Joined { list_id, .. } => Ok(
            JoinResponse { success: true, list_id: list_id.clone() },
        ),
        _ => Err(AppError::Forbidden(JOIN_FAILURE_MESSAGE.to_owned())),
    }
}

/// A wrong code and a lapsed one are answered alike, however often the lapsed one has been
/// tried.
pub proof fn wrong_and_lapsed_codes_are_answered_alike(
    invite: Invite,
    user: Seq<char>,
    now: Instant,
    max_attempts: i32,
)
    requires
        now.is_after(invite.expires_at),
    ensures
        join_answer(redemption(Some(invite), user, now, max_attempts)) == join_answer(
            redemption(None, user, now, max_attempts),
        ),
        join_answer(redemption(None, user, now, max_attempts)) is Err,
{
}

/// What is left of a code once it was presented: a lapsed one that stays counts the probe,
/// one that was redeemed or destroyed is gone.
pub open spec fn left_of(invite: Option<Invite>, v: JoinView) -> Option<Invite> {
    match (invite, v) {
        (Some(invite), JoinView::Probed(attempts)) => Some(Invite { attempts, ..invite }),
        _ => None,
    }
}

/// What is left of a code that was presented so many times in a row.
pub open spec fn after_probes(
    invite: Invite,
    user: Seq<char>,
    now: Instant,
    max_attempts: i32,
    probes: nat,
) -> Option<Invite>
    decreases probes,
{
    if probes == 0 {
        Some(invite)
    } else {
        let found = after_probes(invite, user, now, max_attempts, (probes - 1) as nat);
        left_of(found, redemption(found, user, now, max_attempts))
    }
}

/// A lapsed code survives fewer probes than the limit and is destroyed by the one that
/// reaches it: a code that was never tried is gone after exactly that many.
pub proof fn a_probed_code_is_destroyed_at_the_limit(
    invite: Invite,
    user: Seq<char>,
    now: Instant,
    max_attempts: i32,
    probes: nat,
)
    requires
        now.is_after(invite.expires_at),
        invite.attempts == 0,
        max_attempts > 0,
    ensures
        after_probes(invite, user, now, max_attempts, probes) == (if probes < max_attempts {
            Some(Invite { attempts: probes as i32, ..invite })
        } else {
            None
        }),
    decreases probes,
{
    if probes > 0 {
        a_probed_code_is_destroyed_at_the_limit(
            invite,
            user,
            now,
            max_attempts,
            (probes - 1) as nat,
        );
    }
}

/// A code that is still good grants membership of its own list and no other, and nothing is
/// granted by a code that is not.
pub proof fn a_code_grants_only_its_own_list(
    invite: Option<Invite>,
    user: Seq<char>,
    now: Instant,
    max_attempts: i32,
)
    ensures
        redemption(invite, user, now, max_attempts) matches JoinView::Joined { list_id, .. }
            ==> invite matches Some(i) && list_id == i.list_id@ && !now.is_after(i.expires_at),
{
}

/// A code is found again however it is typed: writing it in lower case, or with white space
/// around it that is trimmed, changes nothing.
pub proof fn a_code_is_found_however_it_is_typed(code: Seq<char>, typed: Seq<char>)
    requires
        is_code(code),
        trimmed(typed) == code || trimmed(typed) == crate::text::lower_text(code),
    ensures
        normalised(typed) == code,
{
    let t = trimmed(typed);
    assert forall|i: int| 0 <= i < code.len() implies #[trigger] upper_text(t)[i] == code[i] by {
        assert('0' <= code[i] <= '9' || 'A' <= code[i] <= 'Z');
        if t != code {
            assert(t[i] == crate::text::ascii_lower(code[i]));
        }
    }
    assert(upper_text(t) =~= code);
}

/// Only a member may invite, an account is refused exactly when its live codes have reached
/// the limit, and a guesser exactly when their failures have.
pub proof fn inviting_and_joining_are_limited(
    list_id: &str,
    is_member: bool,
    member: Result<(), AppError>,
    count: i64,
    max: i64,
    invites: Result<(), AppError>,
    joins: Result<(), AppError>,
)
    requires
        call_ensures(check_member, (list_id, is_member), member),
        call_ensures(check_outstanding, (count, max), invites),
        call_ensures(check_join_failures, (count, max), joins),
    ensures
        member is Ok <==> is_member,
        member matches Err(e) ==> e@ is Forbidden,
        invites is Ok <==> count < max,
        invites matches Err(e) ==> e@ is TooManyRequests,
        joins is Ok <==> count < max,
        joins matches Err(e) ==> e@ is TooManyRequests,
{
}

/// A code has the characters that were drawn for it, in that order, with the letters in upper
/// case, and is found again under itself.
pub proof fn a_code_is_written_as_it_was_drawn(
    bytes: &Vec<u8>,
    code: String,
    typed: &str,
    found: String,
)
    requires
        forall|i: int| 0 <= i < bytes@.len() ==> is_alphanumeric(#[trigger] bytes@[i]),
        bytes@.len() == 8,
        call_ensures(code_of, (bytes,), code),
        typed@ == code@,
        call_ensures(normalise_code, (typed,), found),
    ensures
        code@.len() == 8,
        forall|i: int|
            0 <= i < 8 ==> (#[trigger] code@[i]) as int == (if bytes@[i] >= 0x61 {
                bytes@[i] - 0x20
            } else {
                bytes@[i] as int
            }),
        found@ == code@,
{
    assert forall|i: int| 0 <= i < 8 implies {
        &&& (#[trigger] code@[i]) as int == (if bytes@[i] >= 0x61 {
            bytes@[i] - 0x20
        } else {
            bytes@[i] as int
        })
        &&& ('0' <= code@[i] <= '9' || 'A' <= code@[i] <= 'Z')
    } by {
        assert(is_alphanumeric(bytes@[i]));
        assert(code@[i] == code_char(bytes@[i]));
    }
    assert(is_code(code@));
    written_without_white_space(code@);
    a_code_is_found_however_it_is_typed(code@, code@);
}

proof fn written_without_white_space(code: Seq<char>)
    requires
        is_code(code),
    ensures
        trimmed(code) == code,
{
    assert(!crate::text::is_white(code[0]));
    assert(!crate::text::is_white(code[7]));
    assert(trimmed(code) =~= code);
}

/// A code lapses so many minutes after it was minted, and failures count for so many minutes:
/// sixty seconds to the minute, to the nanosecond, unless the calendar does not reach that far.
pub proof fn a_minute_has_sixty_seconds(
    now: Instant,
    minutes: i64,
    until: Option<Instant>,
    since: Option<Instant>,
)
    requires
        now.wf(),
        minutes > 0,
        call_ensures(invite_expiry, (now, minutes), until),
        call_ensures(failures_since, (now, minutes), since),
    ensures
        until matches Some(at) ==> at.secs - now.secs == 60 * minutes && at.nanos == now.nanos,
        until is None <==> now.secs + 60 * minutes > LAST_SECOND,
        since matches Some(at) ==> now.secs - at.secs == 60 * minutes && at.nanos == now.nanos,
        since is None <==> now.secs - 60 * minutes < FIRST_SECOND,
{
}

/// A good code makes its presenter a member of its own list, under the membership that belongs
/// to the two; a lapsed one is counted up to the limit and destroyed at it; and whoever is let
/// in is told the list they joined, while everybody else is told one and the same thing.
pub proof fn a_code_is_good_until_it_lapses(
    invite: &Option<Invite>,
    user_id: &str,
    now: Instant,
    max_attempts: i32,
    v: JoinVerdict,
    answer: Result<JoinResponse, AppError>,
)
    requires
        call_ensures(redeem, (invite, user_id, now, max_attempts), v),
        call_ensures(answer_join, (&v,), answer),
    ensures
        invite is None ==> v is Unknown,
        *invite matches Some(i) ==> {
            let lapsed = now.secs > i.expires_at.secs || (now.secs == i.expires_at.secs
                && now.nanos > i.expires_at.nanos);
            &&& !lapsed ==> (v matches JoinVerdict::Joined { list_id, member_id: row } && list_id@
                == i.list_id@ && row@ == member_id(i.list_id@, user_id@))
            &&& lapsed && i.attempts + 1 >= max_attempts ==> v is Destroyed
            &&& lapsed && i.attempts + 1 < max_attempts ==> (v matches JoinVerdict::Probed(n) && n
                == i.attempts + 1)
        },
        answer is Ok <==> v is Joined,
        answer matches Ok(told) ==> told.success && (*invite matches Some(i) && told.list_id@
            == i.list_id@),
        answer matches Err(e) ==> e@ == ErrorView::Forbidden("Invalid or expired invite code"@),
{
}

} // verus!
