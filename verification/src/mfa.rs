//! Multi-factor sign-in: how many Authenticator notifications may be sent,
//! what the sign-in page is showing, and how the number to approve is put
//! before the user.
use std::sync::Arc;

use vstd::prelude::*;
use vstd::rwlock::{ReadHandle, RwLock, RwLockPredicate, WriteHandle};
use vstd::string::*;

use crate::text::{
    begins_with, chars_of, concat2, decimal, decimal_of, matches_at, right_align, right_aligned,
    same, string_from,
};

verus! {

/// The most Authenticator notifications that are sent before automatic
/// authentication pauses.
pub const MAX_MFA_PUSH_ATTEMPTS: usize = 3;

// ── Counting ─────────────────────────────────────────────────────────────

/// Another notification would exceed the limit.
#[derive(Debug, Clone, Copy, PartialEq, Eq, Structural)]
pub struct MfaAttemptLimitReached {
    /// How many notifications have been sent.
    pub attempts: usize,
}

/// The words for a limit that was reached.
pub open spec fn limit_text(attempts: usize) -> Seq<char> {
    "MFA was not completed after "@ + decimal(attempts as nat)
        + " Authenticator notifications; automatic authentication is paused. Run `jumphost authenticate` when you are present, or restart the service to allow another three attempts"@
}

impl MfaAttemptLimitReached {
    /// What the user is told.
    pub fn message(&self) -> (r: String)
        ensures
            r@ == limit_text(self.attempts),
    {
        let mut out = "MFA was not completed after ".to_owned();
        out.append(decimal_of(self.attempts as u128).as_str());
        out.append(
            " Authenticator notifications; automatic authentication is paused. Run `jumphost authenticate` when you are present, or restart the service to allow another three attempts",
        );
        out
    }
}

/// How many notifications have been sent without a completed sign-in.
#[derive(Debug, Clone, Copy, PartialEq, Eq, Structural)]
pub struct MfaAttempts {
    pub count: usize,
}

/// The outcome of recording one more notification: its number, and an error
/// once the limit is reached.
pub open spec fn recorded(count: usize) -> Result<usize, MfaAttemptLimitReached> {
    if count < MAX_MFA_PUSH_ATTEMPTS {
        Ok((count + 1) as usize)
    } else {
        Err(MfaAttemptLimitReached { attempts: count })
    }
}

/// The count after recording one more notification: at the limit it stays.
pub open spec fn count_after(count: usize) -> usize {
    if count < MAX_MFA_PUSH_ATTEMPTS {
        (count + 1) as usize
    } else {
        count
    }
}

impl MfaAttempts {
    /// The count never exceeds the limit.
    pub open spec fn wf(self) -> bool {
        self.count <= MAX_MFA_PUSH_ATTEMPTS
    }

    /// No notification has been sent.
    pub fn none() -> (r: MfaAttempts)
        ensures
            r == (MfaAttempts { count: 0 }),
            r.wf(),
    {
        MfaAttempts { count: 0 }
    }

    /// Whether no further notification may be sent.
    pub fn exhausted(&self) -> (r: bool)
        ensures
            r == (self.count >= MAX_MFA_PUSH_ATTEMPTS),
    {
        self.count >= MAX_MFA_PUSH_ATTEMPTS
    }

    /// Counts one more notification, unless the limit is reached.
    pub fn record(&mut self) -> (r: Result<usize, MfaAttemptLimitReached>)
        ensures
            r == recorded(old(self).count),
            final(self).count == count_after(old(self).count),
            old(self).wf() ==> final(self).wf(),
    {
        if self.count < MAX_MFA_PUSH_ATTEMPTS {
            self.count = self.count + 1;
            Ok(self.count)
        } else {
            Err(MfaAttemptLimitReached { attempts: self.count })
        }
    }
}

// ── The shared budget ────────────────────────────────────────────────────

/// What holds of every count that a shared budget ever stores.
pub struct WithinLimit;

impl RwLockPredicate<MfaAttempts> for WithinLimit {
    open spec fn inv(self, v: MfaAttempts) -> bool {
        v.wf()
    }
}

/// A budget of notifications for those who have to share one count and cannot
/// hand it on in turn: a clone counts on the same store.
///
/// The store may be changed through another clone between two calls, so a
/// contract here says which count was read from the store or what was written
/// to it in place of what, and not which count the store holds before or after
/// the call. A run of the supervisor hands an `MfaAttempts` on instead, and its
/// contracts are exact.
pub struct MfaAttemptBudget {
    attempts: Arc<RwLock<MfaAttempts, WithinLimit>>,
}

impl Default for MfaAttemptBudget {
    /// A budget with a store of its own, in which no notification is counted.
    fn default() -> (r: MfaAttemptBudget)
        ensures
            r.starts_unspent(),
    {
        MfaAttemptBudget { attempts: Arc::new(RwLock::new(MfaAttempts::none(), Ghost(WithinLimit))) }
    }
}

impl Clone for MfaAttemptBudget {
    /// A handle on the same store.
    fn clone(&self) -> (r: MfaAttemptBudget)
        ensures
            r == *self,
    {
        MfaAttemptBudget { attempts: self.attempts.clone() }
    }
}

impl MfaAttemptBudget {
    /// The store that every clone shares. What it holds changes without the
    /// budget changing.
    pub closed spec fn shared(&self) -> RwLock<MfaAttempts, WithinLimit> {
        *self.attempts
    }

    /// The store was made with no notification counted.
    pub open spec fn starts_unspent(&self) -> bool {
        call_ensures(
            RwLock::<MfaAttempts, WithinLimit>::new,
            (MfaAttempts { count: 0 }, Ghost(WithinLimit)),
            self.shared(),
        )
    }

    /// A writer of the store, which has it to itself from the one to the
    /// other, takes `before` from it and leaves `after` there.
    pub open spec fn is_written(&self, before: MfaAttempts, after: MfaAttempts) -> bool {
        exists|handle: WriteHandle<'_, MfaAttempts, WithinLimit>|
            #![trigger handle.rwlock()]
            call_ensures(
                RwLock::<MfaAttempts, WithinLimit>::acquire_write,
                (&self.shared(),),
                (before, handle),
            ) && call_ensures(
                WriteHandle::<MfaAttempts, WithinLimit>::release_write,
                (handle, after),
                (),
            )
    }

    /// A reader of the store can find this count there.
    pub open spec fn is_read(&self, count: usize) -> bool {
        exists|handle: ReadHandle<'_, MfaAttempts, WithinLimit>|
            #![trigger handle.view()]
            call_ensures(
                RwLock::<MfaAttempts, WithinLimit>::acquire_read,
                (&self.shared(),),
                handle,
            ) && handle.view().count == count
    }

    /// How many notifications have been sent: the count that was read from
    /// the store, which is within the limit. Which count the store holds at
    /// that moment is not stated, since any clone may have changed it.
    pub fn attempts(&self) -> (r: usize)
        ensures
            self.is_read(r),
            r <= MAX_MFA_PUSH_ATTEMPTS,
    {
        let handle = self.attempts.acquire_read();
        let count: usize = handle.borrow().count;
        assert(handle.view().count == count);
        handle.release_read();
        count
    }

    /// Whether no further notification may be sent, by the count that was read
    /// from the store.
    pub fn is_exhausted(&self) -> (r: bool)
        ensures
            exists|count: usize| #[trigger]
                self.is_read(count) && count <= MAX_MFA_PUSH_ATTEMPTS && r == (count
                    >= MAX_MFA_PUSH_ATTEMPTS),
    {
        let count: usize = self.attempts();
        MfaAttempts { count }.exhausted()
    }

    /// Counts one more notification in the store, unless the limit is reached.
    pub fn try_record_attempt(&self) -> (r: Result<usize, MfaAttemptLimitReached>)
        ensures
            exists|count: usize|
                count <= MAX_MFA_PUSH_ATTEMPTS && r == recorded(count) && #[trigger] self.is_written(
                    MfaAttempts { count },
                    MfaAttempts { count: count_after(count) },
                ),
    {
        let (before, handle) = self.attempts.acquire_write();
        let ghost held = handle;
        let mut attempts = before;
        let r = attempts.record();
        handle.release_write(attempts);
        assert(held.rwlock() == self.shared());
        assert(self.is_written(
            MfaAttempts { count: before.count },
            MfaAttempts { count: count_after(before.count) },
        ));
        r
    }

    /// Allows the full number of notifications again: whatever the store held,
    /// no notification is counted in it any more.
    pub fn reset(&self)
        ensures
            exists|before: MfaAttempts| #[trigger]
                self.is_written(before, MfaAttempts { count: 0 }),
    {
        let (before, handle) = self.attempts.acquire_write();
        let ghost held = handle;
        handle.release_write(MfaAttempts::none());
        assert(held.rwlock() == self.shared());
        assert(self.is_written(before, MfaAttempts { count: 0 }));
    }
}

/// The error for a budget that is used up: it carries the count that was read
/// from the budget.
pub fn mfa_attempt_limit_error(budget: &MfaAttemptBudget) -> (r: MfaAttemptLimitReached)
    ensures
        budget.is_read(r.attempts),
        r.attempts <= MAX_MFA_PUSH_ATTEMPTS,
{
    MfaAttemptLimitReached { attempts: budget.attempts() }
}

// ── What the page shows ──────────────────────────────────────────────────

/// Which step of multi-factor sign-in a page is showing.
#[derive(Debug, Clone, PartialEq, Eq)]
pub enum MfaPhase {
    /// Nothing of the kind.
    Nothing,
    /// The choice between the ways to verify; the Authenticator option can be
    /// clicked.
    MethodPicker,
    /// A notification has been sent; this number has to be approved.
    NumberMatch(String),
    /// A notification has been sent; the number cannot be read.
    ApprovalPending,
    /// The page wants input that only a visible window can take.
    InteractivePrompt,
}

/// A phase by its contents.
pub enum PhaseView {
    Nothing,
    MethodPicker,
    NumberMatch(Seq<char>),
    ApprovalPending,
    InteractivePrompt,
}

impl View for MfaPhase {
    type V = PhaseView;

    open spec fn view(&self) -> PhaseView {
        match self {
            MfaPhase::Nothing => PhaseView::Nothing,
            MfaPhase::MethodPicker => PhaseView::MethodPicker,
            MfaPhase::NumberMatch(n) => PhaseView::NumberMatch(n@),
            MfaPhase::ApprovalPending => PhaseView::ApprovalPending,
            MfaPhase::InteractivePrompt => PhaseView::InteractivePrompt,
        }
    }
}

/// The phase that the page's own report denotes.
pub open spec fn phase_of(raw: Seq<char>) -> PhaseView {
    if begins_with(raw, "number:"@) {
        PhaseView::NumberMatch(raw.skip("number:"@.len() as int))
    } else if raw == "picker"@ {
        PhaseView::MethodPicker
    } else if raw == "pending"@ {
        PhaseView::ApprovalPending
    } else if raw == "interactive"@ {
        PhaseView::InteractivePrompt
    } else {
        PhaseView::Nothing
    }
}

/// Reads the page's report; a report that could not be had shows nothing.
pub fn detect_mfa_phase(report: Option<&str>) -> (r: MfaPhase)
    ensures
        r@ == (match report {
            Some(raw) => phase_of(raw@),
            None => PhaseView::Nothing,
        }),
{
    match report {
        Some(raw) => {
            let v = chars_of(raw);
            let mark = chars_of("number:");
            if matches_at(&v, &mark, 0) {
                let number = string_from(&v, mark.len(), v.len());
                assert(number@ =~= raw@.skip(mark@.len() as int));
                MfaPhase::NumberMatch(number)
            } else if same(raw, "picker") {
                MfaPhase::MethodPicker
            } else if same(raw, "pending") {
                MfaPhase::ApprovalPending
            } else if same(raw, "interactive") {
                MfaPhase::InteractivePrompt
            } else {
                MfaPhase::Nothing
            }
        },
        None => MfaPhase::Nothing,
    }
}

// ── Putting the number before the user ───────────────────────────────────

/// A desktop notification.
#[derive(Debug, Clone)]
pub struct MfaNotification {
    pub summary: String,
    pub body: String,
    pub icon: String,
    pub appname: String,
    /// Shown until it is dismissed, where the desktop knows of such a thing.
    pub critical: bool,
}

/// The notification that shows `number`.
pub fn build_mfa_notification(number: &str) -> (r: MfaNotification)
    ensures
        r.summary@ == "VPN sign-in code "@ + number@,
        r.body@ == "Approve "@ + number@ + " in Microsoft Authenticator."@,
        r.icon@ == "dialog-password"@,
        r.appname@ == "jumphost"@,
        r.critical,
{
    let mut body = concat2("Approve ", number);
    body.append(" in Microsoft Authenticator.");
    MfaNotification {
        summary: concat2("VPN sign-in code ", number),
        body,
        icon: "dialog-password".to_owned(),
        appname: "jumphost".to_owned(),
        critical: true,
    }
}

/// The line of the terminal's banner that carries the number.
pub fn mfa_banner_line(number: &str) -> (r: String)
    ensures
        r@ == "  ║  MFA: approve this number  ->  "@ + right_aligned(number@, 3) + "    ║"@,
{
    let mut out = "  ║  MFA: approve this number  ->  ".to_owned();
    out.append(right_align(number, 3).as_str());
    out.append("    ║");
    out
}

// ── Laws ─────────────────────────────────────────────────────────────────

/// The count after `n` notifications from none.
pub open spec fn count_after_many(n: nat) -> usize
    decreases n,
{
    if n == 0 {
        0
    } else {
        count_after(count_after_many((n - 1) as nat))
    }
}

/// Exactly three notifications are allowed: the first three are numbered from
/// one, and every later one is refused without being counted.
pub proof fn law_exactly_three_attempts(n: nat)
    ensures
        n < 3 ==> recorded(count_after_many(n)) == Ok::<usize, MfaAttemptLimitReached>(
            (n + 1) as usize,
        ),
        n >= 3 ==> recorded(count_after_many(n)) == Err::<usize, MfaAttemptLimitReached>(
            MfaAttemptLimitReached { attempts: 3 },
        ),
        count_after_many(n) == if n < 3 {
            n as int
        } else {
            3
        },
    decreases n,
{
    if n > 0 {
        law_exactly_three_attempts((n - 1) as nat);
    }
}

/// A notification shows the number that it was made for: notifications for
/// different numbers differ.
pub proof fn law_notifications_show_their_number(a: Seq<char>, b: Seq<char>)
    requires
        "VPN sign-in code "@ + a == "VPN sign-in code "@ + b,
    ensures
        a == b,
{
    let p = "VPN sign-in code "@;
    assert((p + a).skip(p.len() as int) =~= a);
    assert((p + b).skip(p.len() as int) =~= b);
}

/// A write to a store of counted notifications.
pub enum BudgetStep {
    /// An attempt is recorded.
    Record,
    /// The full number of notifications is allowed again.
    Reset,
}

/// The count after the first `n` of these writes, one after the other, to a
/// store that was made with none counted.
pub open spec fn count_at(steps: Seq<BudgetStep>, n: int) -> usize
    decreases n,
{
    if n <= 0 {
        0
    } else {
        match steps[n - 1] {
            BudgetStep::Record => count_after(count_at(steps, n - 1)),
            BudgetStep::Reset => 0,
        }
    }
}

/// How many attempts the writes from `from` up to `to` let through.
pub open spec fn recorded_between(steps: Seq<BudgetStep>, from: int, to: int) -> nat
    decreases to - from,
{
    if from >= to {
        0
    } else {
        recorded_between(steps, from, to - 1) + if steps[to - 1] is Record && recorded(
            count_at(steps, to - 1),
        ) is Ok {
            1nat
        } else {
            0nat
        }
    }
}

/// None of the writes from `from` up to `to` is a reset.
pub open spec fn no_reset(steps: Seq<BudgetStep>, from: int, to: int) -> bool {
    forall|i: int| from <= i < to ==> !(#[trigger] steps[i] is Reset)
}

proof fn lemma_count_at(steps: Seq<BudgetStep>, n: int)
    ensures
        count_at(steps, n) <= MAX_MFA_PUSH_ATTEMPTS,
    decreases n,
{
    if n > 0 {
        lemma_count_at(steps, n - 1);
    }
}

proof fn lemma_recorded_between(steps: Seq<BudgetStep>, from: int, to: int)
    requires
        0 <= from <= to <= steps.len(),
        no_reset(steps, from, to),
    ensures
        count_at(steps, to) == count_at(steps, from) + recorded_between(steps, from, to),
    decreases to - from,
{
    if from < to {
        lemma_recorded_between(steps, from, to - 1);
        lemma_count_at(steps, to - 1);
        assert(!(steps[to - 1] is Reset));
    }
}

/// Whatever is written, one write after the other, to a store that was made
/// with none counted:
///
/// - the count stays within the limit;
/// - it is used up exactly if it is three, and exactly if one more attempt
///   would be refused;
/// - between two resets no more than three attempts are let through;
/// - right after a reset none is counted.
pub proof fn law_three_attempts_between_resets(steps: Seq<BudgetStep>, from: int, to: int)
    requires
        0 <= from <= to <= steps.len(),
    ensures
        count_at(steps, to) <= MAX_MFA_PUSH_ATTEMPTS,
        count_at(steps, to) >= MAX_MFA_PUSH_ATTEMPTS <==> count_at(steps, to) == 3,
        count_at(steps, to) >= MAX_MFA_PUSH_ATTEMPTS <==> recorded(count_at(steps, to)) is Err,
        no_reset(steps, from, to) ==> recorded_between(steps, from, to) <= 3,
        to > 0 && steps[to - 1] is Reset ==> count_at(steps, to) == 0,
{
    lemma_count_at(steps, to);
    if no_reset(steps, from, to) {
        lemma_recorded_between(steps, from, to);
    }
}

/// Clones share one store: what can be read and written through one can be
/// read and written through the other.
pub proof fn law_clones_share_their_store(a: MfaAttemptBudget, b: MfaAttemptBudget)
    requires
        call_ensures(MfaAttemptBudget::clone, (&a,), b),
    ensures
        a.shared() == b.shared(),
        forall|count: usize| #[trigger] a.is_read(count) == b.is_read(count),
        forall|before: MfaAttempts, after: MfaAttempts| #[trigger]
            a.is_written(before, after) == b.is_written(before, after),
{
}

/// A report of a number is read as that number, whatever it holds; the three
/// fixed words as what they stand for; anything else, and no report, as
/// nothing.
pub proof fn law_reports_are_read(report: Option<&str>, r: MfaPhase)
    requires
        call_ensures(detect_mfa_phase, (report,), r),
    ensures
        report is None ==> r@ is Nothing,
        report matches Some(raw) ==> {
            &&& r@ matches PhaseView::NumberMatch(n) ==> raw@ == "number:"@ + n
            &&& forall|n: Seq<char>|
                raw@ == #[trigger] ("number:"@ + n) ==> r@ == PhaseView::NumberMatch(n)
            &&& r@ is MethodPicker <==> raw@ == "picker"@
            &&& r@ is ApprovalPending <==> raw@ == "pending"@
            &&& r@ is InteractivePrompt <==> raw@ == "interactive"@
        },
{
    reveal_strlit("number:");
    reveal_strlit("picker");
    reveal_strlit("pending");
    reveal_strlit("interactive");
    if let Some(raw) = report {
        let p = "number:"@;
        let s = raw@;
        assert("picker"@[0] == 'p' && "pending"@[0] == 'p' && "interactive"@[0] == 'i' && p[0]
            == 'n');
        assert("picker"@.len() == 6 && "pending"@.len() == 7 && "interactive"@.len() == 11);
        if begins_with(s, p) {
            assert(s.subrange(0, 7)[0] == s[0]);
            assert(s =~= s.subrange(0, 7) + s.skip(7));
        }
        assert forall|n: Seq<char>| s == #[trigger] (p + n) implies r@ == PhaseView::NumberMatch(
            n,
        ) by {
            assert(s.subrange(0, 7) =~= p);
            assert(s.skip(7) =~= n);
        }
    }
}

/// What the user sees of a number holds the number: the desktop's notification
/// in both its lines, and the terminal's banner with room for three digits.
pub proof fn law_number_is_put_before_the_user(
    number: &str,
    n: MfaNotification,
    banner: String,
    limit: MfaAttemptLimitReached,
    words: String,
)
    requires
        call_ensures(build_mfa_notification, (number,), n),
        call_ensures(mfa_banner_line, (number,), banner),
        call_ensures(MfaAttemptLimitReached::message, (&limit,), words),
    ensures
        n.summary@ == "VPN sign-in code "@ + number@,
        n.body@ == "Approve "@ + number@ + " in Microsoft Authenticator."@,
        n.critical && n.icon@ == "dialog-password"@ && n.appname@ == "jumphost"@,
        number@.len() >= 3 ==> banner@ == "  ║  MFA: approve this number  ->  "@ + number@
            + "    ║"@,
        number@.len() == 2 ==> banner@ == "  ║  MFA: approve this number  ->  "@ + seq![' ']
            + number@ + "    ║"@,
        number@.len() == 1 ==> banner@ == "  ║  MFA: approve this number  ->  "@ + seq![' ', ' ']
            + number@ + "    ║"@,
        words@ == "MFA was not completed after "@ + decimal(limit.attempts as nat)
            + " Authenticator notifications; automatic authentication is paused. Run `jumphost authenticate` when you are present, or restart the service to allow another three attempts"@,
{
    let lead = "  ║  MFA: approve this number  ->  "@;
    if number@.len() >= 3 {
        assert(right_aligned(number@, 3) =~= number@);
    }
    if number@.len() == 1 {
        assert(right_aligned(number@, 3) =~= seq![' ', ' '] + number@);
        assert(lead + (seq![' ', ' '] + number@) + "    ║"@ =~= lead + seq![' ', ' '] + number@
            + "    ║"@);
    }
    if number@.len() == 2 {
        assert(right_aligned(number@, 3) =~= seq![' '] + number@);
        assert(lead + (seq![' '] + number@) + "    ║"@ =~= lead + seq![' '] + number@
            + "    ║"@);
    }
}

/// The limit is three: below it a notification is counted under the next
/// number, at it none is, and the count is exhausted exactly there.
pub proof fn law_limit_is_three(count: usize, a: MfaAttempts, exhausted: bool, none: MfaAttempts)
    requires
        call_ensures(MfaAttempts::exhausted, (&a,), exhausted),
        call_ensures(MfaAttempts::none, (), none),
    ensures
        none.count == 0,
        exhausted <==> a.count >= 3,
        count < 3 ==> recorded(count) == Ok::<usize, MfaAttemptLimitReached>((count + 1) as usize)
            && count_after(count) == count + 1,
        count >= 3 ==> recorded(count) == Err::<usize, MfaAttemptLimitReached>(
            MfaAttemptLimitReached { attempts: count },
        ) && count_after(count) == count,
{
}

/// Recording counts one more below the limit of three, and nothing at it.
pub proof fn law_recording(a: &mut MfaAttempts, r: Result<usize, MfaAttemptLimitReached>)
    requires
        call_ensures(MfaAttempts::record, (a,), r),
    ensures
        old(a).count < 3 ==> r == Ok::<usize, MfaAttemptLimitReached>(final(a).count)
            && final(a).count == old(a).count + 1,
        old(a).count >= 3 ==> r == Err::<usize, MfaAttemptLimitReached>(
            MfaAttemptLimitReached { attempts: old(a).count },
        ) && final(a).count == old(a).count,
{
}

/// What the shared budget's operations read and write: an attempt is recorded
/// on the count that was taken from the store and is let through exactly below
/// three; a reset leaves none; and what is reported is a count that was read.
pub proof fn law_shared_budget(
    b: MfaAttemptBudget,
    recorded_as: Result<usize, MfaAttemptLimitReached>,
    n: usize,
    used_up: bool,
    e: MfaAttemptLimitReached,
    fresh: MfaAttemptBudget,
)
    requires
        call_ensures(MfaAttemptBudget::try_record_attempt, (&b,), recorded_as),
        call_ensures(MfaAttemptBudget::reset, (&b,), ()),
        call_ensures(MfaAttemptBudget::attempts, (&b,), n),
        call_ensures(MfaAttemptBudget::is_exhausted, (&b,), used_up),
        call_ensures(mfa_attempt_limit_error, (&b,), e),
        call_ensures(MfaAttemptBudget::default, (), fresh),
    ensures
        recorded_as matches Ok(k) ==> 1 <= k <= 3 && b.is_written(
            MfaAttempts { count: (k - 1) as usize },
            MfaAttempts { count: k },
        ),
        recorded_as matches Err(limit) ==> limit.attempts == 3 && b.is_written(
            MfaAttempts { count: 3 },
            MfaAttempts { count: 3 },
        ),
        exists|before: MfaAttempts| #[trigger] b.is_written(before, MfaAttempts { count: 0 }),
        b.is_read(n) && n <= 3,
        exists|k: usize| #[trigger] b.is_read(k) && k <= 3 && (used_up <==> k == 3),
        b.is_read(e.attempts) && e.attempts <= 3,
        fresh.starts_unspent(),
{
}

} // verus!
