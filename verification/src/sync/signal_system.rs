//! What holds of a signal whatever its threads do.
use vstd::prelude::*;
use super::backoff::Backoff;
use super::signal_machine::{
    Notify, NotifyPc, SignalAccess, SignalReply, Wait, WaitPc,
};

verus! {

/// What a thread does with the signal.
pub ghost enum SignalThread {
    /// Nothing.
    Idle,
    Notifying(Notify),
    Waiting(Wait),
}

impl SignalThread {
    /// What the thread does next, if anything.
    pub open spec fn access(self) -> Option<SignalAccess> {
        match self {
            SignalThread::Idle => None,
            SignalThread::Notifying(op) => op.spec_access(),
            SignalThread::Waiting(op) => op.spec_access(),
        }
    }

    /// Whether the thread can go on from `reply`.
    pub open spec fn accepts(self, reply: SignalReply) -> bool {
        match self {
            SignalThread::Idle => false,
            SignalThread::Notifying(op) => op.wf() && op.accepts(reply),
            SignalThread::Waiting(op) => op.wf() && op.accepts(reply),
        }
    }

    /// Where the thread stands after `reply`.
    pub open spec fn after(self, reply: SignalReply) -> SignalThread {
        match self {
            SignalThread::Idle => SignalThread::Idle,
            SignalThread::Notifying(op) => SignalThread::Notifying(op.after(reply)),
            SignalThread::Waiting(op) => SignalThread::Waiting(op.after(reply)),
        }
    }

    /// Whether the word counts the thread.
    pub open spec fn is_counted(self) -> bool {
        self matches SignalThread::Waiting(op) && op.is_waiting && !(op.pc is Notified)
            && !(op.pc is TimedOut)
    }

    /// Whether the thread sleeps until a permit comes or its time is up.
    pub open spec fn sleeps(self) -> bool {
        self matches SignalThread::Waiting(op) && op.pc is Sleep
    }

    /// Whether the thread is waiting awake: it will look at the word.
    pub open spec fn watches(self) -> bool {
        self matches SignalThread::Waiting(op) && (op.pc is Load || op.pc is Pause || op.pc is Enter
            || op.pc is Consume)
    }

    /// Whether the thread is about to issue a permit.
    pub open spec fn issues(self) -> bool {
        self matches SignalThread::Notifying(op) && op.pc is Release
    }

    /// Whether the thread has taken a permit and is about to look at the word.
    pub open spec fn wakes_up(self) -> bool {
        self matches SignalThread::Waiting(op) && op.pc is Unwake
    }

    /// Whether the thread has just taken a notification.
    pub open spec fn is_notified(self) -> bool {
        self matches SignalThread::Waiting(op) && op.pc is Notified
    }
}

/// A signal and the threads that use it.
pub ghost struct SignalSystem {
    pub word: usize,
    pub permits: usize,
    pub threads: Map<int, SignalThread>,
    /// How many notifications have been stored so far.
    pub stored: nat,
    /// How many notifications have been taken so far.
    pub taken: nat,
    /// Whether the word has ever counted two threads at once.
    pub crowded: bool,
}

impl SignalSystem {
    /// A signal that nobody has used yet. The word has room to count all threads.
    pub open spec fn init(self) -> bool {
        &&& self.word == 0
        &&& self.permits == 0
        &&& self.threads.dom().finite()
        &&& self.threads.dom().len() <= usize::MAX / 8
        &&& forall|k: int| #[trigger] self.threads.contains_key(k) ==> self.threads[k] is Idle
        &&& self.stored == 0
        &&& self.taken == 0
        &&& !self.crowded
    }

    /// The word after an access. `success` says whether an `Exchange` succeeded.
    pub open spec fn word_after(self, access: SignalAccess, success: bool) -> usize {
        match access {
            SignalAccess::Exchange { new, .. } => if success {
                new
            } else {
                self.word
            },
            SignalAccess::FetchSub(amount) => (self.word - amount) as usize,
            _ => self.word,
        }
    }

    /// The permits after an access. `success` says whether an `Acquire` took one.
    pub open spec fn permits_after(self, access: SignalAccess, success: bool) -> usize {
        match access {
            SignalAccess::Release => (self.permits + 1) as usize,
            SignalAccess::Acquire => if success {
                (self.permits - 1) as usize
            } else {
                self.permits
            },
            _ => self.permits,
        }
    }

    /// The answer to an access.
    pub open spec fn reply(self, access: SignalAccess, success: bool) -> SignalReply {
        match access {
            SignalAccess::Load => SignalReply::Word(self.word),
            SignalAccess::Exchange { .. } => if success {
                SignalReply::Exchanged
            } else {
                SignalReply::Observed(self.word)
            },
            SignalAccess::FetchSub(_) => SignalReply::Word(self.word),
            SignalAccess::Release => SignalReply::Done,
            SignalAccess::Acquire => SignalReply::Permit { timed_out: !success },
            SignalAccess::Pause => SignalReply::Done,
        }
    }

    /// Whether an access may come out as `success` says: an `Exchange` succeeds only where the
    /// word is the one it expects, and a thread takes a permit exactly where there is one.
    pub open spec fn allows(self, access: SignalAccess, success: bool) -> bool {
        match access {
            SignalAccess::Exchange { current, .. } => success ==> self.word == current,
            SignalAccess::Acquire => success == (self.permits > 0),
            _ => true,
        }
    }

    /// Whether an access is safe to make: nothing underflows or overflows.
    pub open spec fn is_safe(self, access: SignalAccess) -> bool {
        match access {
            SignalAccess::FetchSub(amount) => self.word >= amount,
            SignalAccess::Release => self.permits < usize::MAX,
            _ => true,
        }
    }

    /// Thread `k` makes the access that it is about to make.
    pub open spec fn steps(self, next: SignalSystem, k: int, success: bool) -> bool {
        let access = self.threads[k].access();
        let after = self.threads[k].after(self.reply(access->0, success));
        &&& self.threads.contains_key(k)
        &&& access is Some
        &&& self.allows(access->0, success)
        &&& next.word == self.word_after(access->0, success)
        &&& next.permits == self.permits_after(access->0, success)
        &&& next.threads == self.threads.insert(k, after)
        &&& next.stored == self.stored + if self.threads[k] is Notifying
            && !super::signal_machine::notified(self.word) && super::signal_machine::notified(
            next.word,
        ) {
            1nat
        } else {
            0
        }
        &&& next.taken == self.taken + if after.is_notified() {
            1nat
        } else {
            0
        }
        &&& next.crowded == (self.crowded || super::signal_machine::waiting(next.word) > 1)
    }

    /// Thread `k` starts to notify or to wait, or is done with it.
    pub open spec fn turns(self, next: SignalSystem, k: int) -> bool {
        &&& self.threads.contains_key(k)
        &&& next == SignalSystem { threads: next.threads, ..self }
        &&& {
            ||| {
                &&& self.threads[k] is Idle
                &&& next.threads == self.threads.insert(
                    k,
                    SignalThread::Notifying(Notify { pc: NotifyPc::Load }),
                )
            }
            ||| {
                &&& self.threads[k] is Idle
                &&& exists|backoff: Backoff|
                    next.threads == self.threads.insert(
                        k,
                        #[trigger] waits_with(backoff),
                    )
            }
            ||| {
                &&& !(self.threads[k] is Idle)
                &&& self.threads[k].access() is None
                &&& next.threads == self.threads.insert(k, SignalThread::Idle)
            }
        }
    }

    /// Thread `k` makes a step or takes a turn.
    pub open spec fn next_by(self, next: SignalSystem, k: int, success: bool) -> bool {
        self.steps(next, k, success) || self.turns(next, k)
    }

    /// Some thread makes a step or takes a turn.
    pub open spec fn next(self, next: SignalSystem) -> bool {
        exists|k: int, success: bool| self.next_by(next, k, success)
    }

    /// Whether the moment comes after `n` steps of the threads, in some order.
    pub open spec fn reachable(self, n: nat) -> bool
        decreases n,
    {
        if n == 0 {
            self.init()
        } else {
            exists|before: SignalSystem|
                #![trigger before.next(self)]
                before.reachable((n - 1) as nat) && before.next(self)
        }
    }

    /// The threads that the word counts.
    pub open spec fn counted(self) -> Set<int> {
        self.threads.dom().filter(|k: int| self.threads[k].is_counted())
    }
}

/// A thread that starts to wait.
pub open spec fn waits_with(backoff: Backoff) -> SignalThread {
    SignalThread::Waiting(Wait { is_waiting: false, backoff, pc: WaitPc::Load })
}

/// Where the wake token is.
pub ghost enum Token {
    Nowhere,
    /// With the thread that is about to issue its permit.
    Issuing(int),
    /// In the permit.
    Issued,
    /// With the thread that has taken the permit.
    Taken(int),
}

/// What is known of thread `k`.
pub open spec fn thread_inv(s: SignalSystem, token: Token, k: int) -> bool {
    &&& s.threads[k].issues() == (token == Token::Issuing(k))
    &&& s.threads[k].wakes_up() == (token == Token::Taken(k))
    &&& match s.threads[k] {
        SignalThread::Idle => true,
        SignalThread::Notifying(op) => op.wf(),
        SignalThread::Waiting(op) => op.wf(),
    }
}

/// Some thread that waits is awake.
pub open spec fn some_watches(s: SignalSystem) -> bool {
    exists|k: int| #![trigger s.threads[k]] s.threads.contains_key(k) && s.threads[k].watches()
}

/// No thread sleeps.
pub open spec fn none_sleeps(s: SignalSystem) -> bool {
    forall|k: int| #[trigger] s.threads.contains_key(k) ==> !s.threads[k].sleeps()
}

/// What holds at every moment.
pub open spec fn inv(s: SignalSystem, token: Token) -> bool {
    let w = s.word;
    &&& s.threads.dom().finite()
    &&& s.threads.dom().len() <= usize::MAX / 8
    &&& s.counted().finite()
    &&& super::signal_machine::waiting(w) == s.counted().len()
    &&& super::signal_machine::waking(w) == !(token is Nowhere)
    &&& match token {
        Token::Issuing(k) => s.threads.contains_key(k),
        Token::Taken(k) => s.threads.contains_key(k),
        _ => true,
    }
    &&& s.permits == if token is Issued {
        1int
    } else {
        0
    }
    &&& s.stored == s.taken + if super::signal_machine::notified(w) {
        1nat
    } else {
        0
    }
    &&& forall|k: int| #[trigger] s.threads.contains_key(k) ==> thread_inv(s, token, k)
    &&& !s.crowded ==> {
        &&& super::signal_machine::waiting(w) <= 1
        &&& super::signal_machine::notified(w) && !super::signal_machine::waking(w)
            ==> none_sleeps(s) || some_watches(s)
    }
}

/// A word by its parts.
proof fn lemma_parts(word: usize, n: int, t: int, c: int)
    requires
        0 <= n < 2,
        0 <= t < 2,
        0 <= c,
        word == n + 2 * t + 4 * c,
    ensures
        super::signal_machine::notified(word) == (n == 1),
        super::signal_machine::waking(word) == (t == 1),
        super::signal_machine::waiting(word) == c,
        super::signal_machine::occupied(word) == (c % 2 == 1),
{
}

/// What a change of thread `k` does to the threads that the word counts.
proof fn lemma_counted(s: SignalSystem, s2: SignalSystem, k: int)
    requires
        s.threads.contains_key(k),
        s.threads.dom().finite(),
        s2.threads == s.threads.insert(k, s2.threads[k]),
    ensures
        s2.threads.dom() == s.threads.dom(),
        s.counted().finite(),
        s2.counted().finite(),
        s2.counted().len() <= s.threads.dom().len(),
        s2.counted().len() == s.counted().len() + (if s2.threads[k].is_counted() {
            1int
        } else {
            0
        }) - (if s.threads[k].is_counted() {
            1int
        } else {
            0
        }),
        s.threads[k].is_counted() ==> s.counted().len() > 0,
        !s.threads[k].is_counted() ==> s.counted().len() < s.threads.dom().len(),
        s.counted().len() <= s.threads.dom().len(),
{
    broadcast use vstd::set::group_set_axioms;

    assert(s2.threads.dom() =~= s.threads.dom());
    vstd::set_lib::lemma_len_subset(s.counted(), s.threads.dom());
    vstd::set_lib::lemma_len_subset(s2.counted(), s.threads.dom());
    vstd::set_lib::lemma_len_subset(s.counted().insert(k), s.threads.dom());
    if s2.threads[k].is_counted() {
        assert(s2.counted() =~= s.counted().insert(k));
    } else {
        assert(s2.counted() =~= s.counted().remove(k));
    }
}

proof fn lemma_turn(s: SignalSystem, token: Token, s2: SignalSystem, k: int)
    requires
        inv(s, token),
        s.turns(s2, k),
    ensures
        inv(s2, token),
{
    assert(thread_inv(s, token, k));
    lemma_counted(s, s2, k);
    assert forall|j: int| #[trigger] s2.threads.contains_key(j) implies thread_inv(
        s2,
        token,
        j,
    ) by {
        assert(s.threads.contains_key(j));
        assert(thread_inv(s, token, j));
    }
    if none_sleeps(s) {
        assert forall|j: int| #[trigger] s2.threads.contains_key(j) implies !s2.threads[j].sleeps() by {
            assert(s.threads.contains_key(j));
        }
    }
    if some_watches(s) {
        let j = choose|j: int|
            #![trigger s.threads[j]]
            s.threads.contains_key(j) && s.threads[j].watches();
        assert(s2.threads[j].watches());
    }
}

proof fn lemma_step(s: SignalSystem, token: Token, s2: SignalSystem, k: int, success: bool) -> (t2:
    Token)
    requires
        inv(s, token),
        s.steps(s2, k, success),
    ensures
        inv(s2, t2),
{
    assert(thread_inv(s, token, k));
    let w = s.word;
    let before = s.threads[k];
    let after = s2.threads[k];
    lemma_counted(s, s2, k);
    super::signal_machine::lemma_bits(w);
    let n = (w % 2) as int;
    let t = ((w / 2) % 2) as int;
    let c = (w / 4) as int;
    lemma_parts(w, n, t, c);
    let t2 = match before {
        SignalThread::Notifying(op) => match op.pc {
            NotifyPc::Store(_) => if after.issues() {
                lemma_parts(s2.word, 1, 1, c);
                Token::Issuing(k)
            } else {
                if success {
                    lemma_parts(s2.word, 1, t, c);
                }
                token
            },
            NotifyPc::Release => Token::Issued,
            _ => token,
        },
        SignalThread::Waiting(op) => match op.pc {
            WaitPc::Consume(_) => {
                if success {
                    lemma_parts(s2.word, 0, t, c - if op.is_waiting {
                        1int
                    } else {
                        0
                    });
                }
                token
            },
            WaitPc::Enter(_) => {
                if success {
                    lemma_parts(s2.word, 0, t, c + 1);
                }
                token
            },
            WaitPc::Sleep => if success {
                Token::Taken(k)
            } else {
                token
            },
            WaitPc::Leave => {
                lemma_parts(s2.word, n, t, c - 1);
                token
            },
            WaitPc::Unwake => {
                lemma_parts(s2.word, n, 0, c);
                Token::Nowhere
            },
            _ => token,
        },
        SignalThread::Idle => token,
    };
    assert forall|j: int| #[trigger] s2.threads.contains_key(j) implies thread_inv(s2, t2, j) by {
        assert(s.threads.contains_key(j));
        assert(thread_inv(s, token, j));
    }
    if !s2.crowded && super::signal_machine::notified(s2.word) && !super::signal_machine::waking(
        s2.word,
    ) {
        if some_watches(s) {
            let j = choose|j: int|
                #![trigger s.threads[j]]
                s.threads.contains_key(j) && s.threads[j].watches();
            assert(s2.threads[j].watches());
        } else if after.watches() {
            assert(s2.threads.contains_key(k));
        } else {
            assert forall|j: int| #[trigger] s2.threads.contains_key(j) implies !s2.threads[j].sleeps() by {
                assert(s.threads.contains_key(j));
                if s2.threads[j].sleeps() && j != k {
                    assert(s.threads[j].sleeps());
                    assert(s.counted().contains(j));
                    assert(s.counted().len() > 0) by {
                        if s.counted().len() == 0 {
                            assert(s.counted() =~= Set::empty());
                        }
                    }
                }
            }
        }
    }
    t2
}

proof fn lemma_reachable(s: SignalSystem, n: nat) -> (token: Token)
    requires
        s.reachable(n),
    ensures
        inv(s, token),
    decreases n,
{
    if n == 0 {
        assert(s.counted() =~= Set::empty());
        assert forall|k: int| #[trigger] s.threads.contains_key(k) implies thread_inv(
            s,
            Token::Nowhere,
            k,
        ) by {}
        Token::Nowhere
    } else {
        let before = choose|before: SignalSystem|
            #![trigger before.next(s)]
            before.reachable((n - 1) as nat) && before.next(s);
        let token = lemma_reachable(before, (n - 1) as nat);
        let (k, success) = choose|k: int, success: bool| before.next_by(s, k, success);
        if before.steps(s, k, success) {
            lemma_step(before, token, s, k, success)
        } else {
            lemma_turn(before, token, s, k);
            token
        }
    }
}

/// A notification is taken at most once, and none is lost: of those that have been stored, all have
/// been taken but the one that the word still holds.
pub proof fn law_each_notification_is_taken_once(s: SignalSystem, n: nat)
    requires
        s.reachable(n),
    ensures
        s.stored == s.taken + if super::signal_machine::notified(s.word) {
            1nat
        } else {
            0
        },
{
    let token = lemma_reachable(s, n);
}

/// The word counts the threads that wait, and there is never more than one permit.
pub proof fn law_word_counts_waiting_threads(s: SignalSystem, n: nat)
    requires
        s.reachable(n),
    ensures
        super::signal_machine::waiting(s.word) == s.counted().len(),
        s.permits <= 1,
        s.permits == 1 ==> super::signal_machine::waking(s.word),
{
    let token = lemma_reachable(s, n);
}

/// Whatever the threads do, a thread can always make the access that it is about to make, and can
/// go on from the answer.
pub proof fn law_no_step_is_stuck(s: SignalSystem, n: nat, k: int, success: bool)
    requires
        s.reachable(n),
        s.threads.contains_key(k),
        s.threads[k].access() is Some,
        s.allows(s.threads[k].access()->0, success),
    ensures
        s.is_safe(s.threads[k].access()->0),
        s.threads[k].accepts(s.reply(s.threads[k].access()->0, success)),
{
    let token = lemma_reachable(s, n);
    assert(thread_inv(s, token, k));
    assert(s.threads =~= s.threads.insert(k, s.threads[k]));
    lemma_counted(s, s, k);
    super::signal_machine::lemma_bits(s.word);
}

/// While the word has never counted two threads at once, no notification leaves a thread asleep: as
/// long as one is stored and a thread sleeps, a permit has been issued or is about to be, or a
/// thread is awake that will look at the word.
pub proof fn law_no_lost_wakeup(s: SignalSystem, n: nat, k: int)
    requires
        s.reachable(n),
        !s.crowded,
        super::signal_machine::notified(s.word),
        s.threads.contains_key(k),
        s.threads[k].sleeps(),
    ensures
        s.permits > 0 || exists|j: int|
            #![trigger s.threads[j]]
            s.threads.contains_key(j) && (s.threads[j].issues() || s.threads[j].wakes_up()
                || s.threads[j].watches()),
{
    let token = lemma_reachable(s, n);
    match token {
        Token::Issuing(j) => {
            assert(thread_inv(s, token, j));
            assert(s.threads[j].issues());
        },
        Token::Taken(j) => {
            assert(thread_inv(s, token, j));
            assert(s.threads[j].wakes_up());
        },
        _ => {},
    }
}

/// A signal in use, and how many calls of `notify` have begun.
pub ghost struct Tally {
    pub system: SignalSystem,
    pub begun: nat,
}

impl Tally {
    /// Nobody has used the signal yet.
    pub open spec fn init(self) -> bool {
        self.system.init() && self.begun == 0
    }

    /// Thread `k` makes a step or takes a turn, perhaps to begin to notify.
    pub open spec fn next_by(self, next: Tally, k: int, success: bool) -> bool {
        &&& self.system.next_by(next.system, k, success)
        &&& next.begun == self.begun + if self.system.threads[k] is Idle
            && next.system.threads[k] is Notifying {
            1nat
        } else {
            0
        }
    }

    /// Some thread makes a step or takes a turn.
    pub open spec fn next(self, next: Tally) -> bool {
        exists|k: int, success: bool| self.next_by(next, k, success)
    }

    /// Whether the moment comes after `n` steps of the threads, in some order.
    pub open spec fn reachable(self, n: nat) -> bool
        decreases n,
    {
        if n == 0 {
            self.init()
        } else {
            exists|before: Tally|
                #![trigger before.next(self)]
                before.reachable((n - 1) as nat) && before.next(self)
        }
    }
}

/// Whether the thread has begun to notify and may still store a notification.
spec fn may_store(thread: SignalThread) -> bool {
    thread matches SignalThread::Notifying(op) && (op.pc is Load || op.pc is Store)
}

/// The threads that may still store a notification.
spec fn storing(threads: Map<int, SignalThread>) -> Set<int> {
    threads.dom().filter(|k: int| may_store(threads[k]))
}

/// What a change of thread `k` does to the threads that may still store a notification.
proof fn lemma_storing(before: Map<int, SignalThread>, after: Map<int, SignalThread>, k: int)
    requires
        before.contains_key(k),
        before.dom().finite(),
        after == before.insert(k, after[k]),
    ensures
        after.dom().finite(),
        storing(after).len() == storing(before).len() + (if may_store(after[k]) {
            1int
        } else {
            0
        }) - (if may_store(before[k]) {
            1int
        } else {
            0
        }),
{
    broadcast use vstd::set::group_set_axioms;

    assert(after.dom() =~= before.dom());
    vstd::set_lib::lemma_len_subset(storing(before), before.dom());
    if may_store(after[k]) {
        assert(storing(after) =~= storing(before).insert(k));
    } else {
        assert(storing(after) =~= storing(before).remove(k));
    }
}

/// Each call that has begun stores one notification at most.
proof fn lemma_tally(t: Tally, n: nat)
    requires
        t.reachable(n),
    ensures
        t.system.reachable(n),
        t.system.threads.dom().finite(),
        t.system.stored + storing(t.system.threads).len() <= t.begun,
    decreases n,
{
    if n == 0 {
        assert(storing(t.system.threads) =~= Set::empty());
    } else {
        let before = choose|before: Tally|
            #![trigger before.next(t)]
            before.reachable((n - 1) as nat) && before.next(t);
        let (k, success) = choose|k: int, success: bool| before.next_by(t, k, success);
        lemma_tally(before, (n - 1) as nat);
        assert(before.system.next(t.system));
        lemma_storing(before.system.threads, t.system.threads, k);
    }
}

/// No more notifications are taken than calls of `notify` have begun.
pub proof fn law_no_more_taken_than_begun(t: Tally, n: nat)
    requires
        t.reachable(n),
    ensures
        t.system.taken <= t.system.stored,
        t.system.stored <= t.begun,
{
    lemma_tally(t, n);
    law_each_notification_is_taken_once(t.system, n);
}

} // verus!
