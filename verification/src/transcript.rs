//! A bus that answers from memory, for programs that cannot wait inside a call.
//!
//! A [`Transcript`] holds the answers of the accesses made so far. A driver that
//! runs on it makes those accesses again, gets the answers that are known, and
//! comes to accesses without an answer. These are taken down; the next
//! [`Transcript::batch`] of them is carried out in whatever way suits the program,
//! their answers are added, and the driver runs again, from what it remembered
//! before. When no access is without an answer, the driver has done its work and
//! what it returned holds.
//!
//! Accesses that only write need no answer for the driver to go on, if the bus
//! carries them out. So the transcript lets a number of accesses go ahead as if
//! they had succeeded; a batch ends with the first read, whose answer decides what
//! comes next.

use vstd::prelude::*;

use crate::interface::{Access, Delay, Interface, Outcome, Pause, Wait, World};

verus! {

/// An access that was asked for.
#[derive(Debug, PartialEq, Eq)]
pub enum Request {
    /// Read `len` bytes from a register on.
    Read {
        /// The register's address.
        address: u8,
        /// The size that the driver gave, in bits.
        size_bits: u32,
        /// How many bytes.
        len: usize,
    },
    /// Write bytes to a register.
    Write {
        /// The register's address.
        address: u8,
        /// The size that the driver gave, in bits.
        size_bits: u32,
        /// The bytes.
        data: Vec<u8>,
    },
}

/// What an access brought.
#[derive(Debug, PartialEq, Eq)]
pub struct Answer {
    /// The bytes that came back on a read.
    pub data: Vec<u8>,
    /// Whether the bus carried it out.
    pub carried_out: bool,
}

/// Why an access on a transcript failed.
#[derive(Debug, Clone, Copy, PartialEq, Eq, Structural)]
pub enum Stop {
    /// The bus refused the access with this number, counted from 0.
    Refused(usize),
    /// There is no answer yet.
    Unanswered,
}

/// One thing to do next.
#[derive(Debug, Clone, Copy, PartialEq, Eq, Structural)]
pub enum Step {
    /// Carry out the access with this number.
    Access(usize),
    /// Wait.
    Pause(Pause),
}

/// A pause, and the number of accesses before it.
#[derive(Debug, Clone, Copy, PartialEq, Eq, Structural)]
pub struct Noted {
    /// How many accesses were made before the pause.
    pub position: usize,
    /// The pause.
    pub pause: Pause,
}

/// What access number `n` brings, if `answers` are known and `ahead` more accesses
/// are taken to succeed.
pub open spec fn outcome_of(answers: Seq<Answer>, ahead: nat, n: nat) -> Outcome<Stop> {
    if n < answers.len() {
        Outcome {
            bytes: answers[n as int].data@,
            result: if answers[n as int].carried_out {
                Ok(())
            } else {
                Err(Stop::Refused(n as usize))
            },
        }
    } else if n < answers.len() + ahead {
        Outcome { bytes: Seq::empty(), result: Ok(()) }
    } else {
        Outcome { bytes: Seq::empty(), result: Err(Stop::Unanswered) }
    }
}

/// [`outcome_of`] for every number.
pub open spec fn world_of(answers: Seq<Answer>, ahead: nat) -> World<Stop> {
    World { outcomes: |n: nat| outcome_of(answers, ahead, n) }
}

/// A request as an access with the given outcome.
pub open spec fn carried_out(request: Request, outcome: Outcome<Stop>) -> Access<Stop> {
    match request {
        Request::Read { address, size_bits, len } => Access::Read {
            address,
            size_bits,
            data: outcome.data(len as nat),
            result: outcome.result,
        },
        Request::Write { address, size_bits, data } => Access::Write {
            address,
            size_bits,
            data: data@,
            result: outcome.result,
        },
    }
}

/// The pauses after `position` accesses.
pub open spec fn pauses_at(pauses: Seq<Noted>, position: int) -> Seq<Step>
    decreases pauses.len(),
{
    if pauses.len() == 0 {
        Seq::empty()
    } else {
        let before = pauses_at(pauses.drop_last(), position);
        if pauses.last().position == position {
            before.push(Step::Pause(pauses.last().pause))
        } else {
            before
        }
    }
}

/// Where a batch that begins with access `from` ends: after the first read, and
/// at `to` at the latest.
pub open spec fn batch_end(requests: Seq<Request>, from: int, to: int) -> int
    decreases to - from,
{
    if from >= to {
        to
    } else if requests[from] is Read {
        from + 1
    } else {
        batch_end(requests, from + 1, to)
    }
}

/// The accesses from number `from` up to `to`, each behind its pauses.
pub open spec fn schedule(pauses: Seq<Noted>, from: int, to: int) -> Seq<Step>
    decreases to - from,
{
    if from >= to {
        Seq::empty()
    } else {
        schedule(pauses, from, to - 1) + pauses_at(pauses, to - 1).push(
            Step::Access((to - 1) as usize),
        )
    }
}

/// A bus that answers from memory.
pub struct Transcript {
    answers: Vec<Answer>,
    ahead: usize,
    requests: Vec<Request>,
    pauses: Vec<Noted>,
}

impl Transcript {
    /// The answers that are known.
    pub closed spec fn known(&self) -> Seq<Answer> {
        self.answers@
    }

    /// How many accesses more are taken to succeed.
    pub closed spec fn window(&self) -> nat {
        self.ahead as nat
    }

    /// The accesses that were asked for.
    pub closed spec fn asked(&self) -> Seq<Request> {
        self.requests@
    }

    /// The pauses between them.
    pub closed spec fn noted(&self) -> Seq<Noted> {
        self.pauses@
    }

    /// Every access has an answer.
    pub open spec fn answered(&self) -> bool {
        self.asked().len() <= self.known().len()
    }

    /// Where the next batch of accesses ends, of which no answer is known.
    pub open spec fn next_end(&self) -> int {
        let known = self.known().len() as int;
        let all = self.asked().len() as int;
        let to = if all < known + self.window() {
            all
        } else {
            known + self.window()
        };
        batch_end(self.asked(), known, to)
    }

    /// What is to be done next: while accesses are without an answer, the next of
    /// them, up to the first read and no more than the window holds; then the
    /// pauses behind the last access.
    pub open spec fn next_steps(&self) -> Seq<Step> {
        if self.answered() {
            pauses_at(self.noted(), self.asked().len() as int)
        } else {
            schedule(self.noted(), self.known().len() as int, self.next_end())
        }
    }

    /// A transcript with the answers that are known, on which `ahead` accesses more
    /// are taken to succeed.
    pub fn new(answers: Vec<Answer>, ahead: usize) -> (transcript: Self)
        ensures
            transcript.known() == answers@,
            transcript.window() == ahead,
            transcript.asked() == Seq::<Request>::empty(),
            transcript.noted() == Seq::<Noted>::empty(),
    {
        Transcript { answers, ahead, requests: Vec::new(), pauses: Vec::new() }
    }

    /// Whether every access has an answer, so that what the driver returned holds.
    pub fn is_answered(&self) -> (answered: bool)
        ensures
            answered == self.answered(),
    {
        self.requests.len() <= self.answers.len()
    }

    /// The accesses that were asked for.
    pub fn requests(&self) -> (requests: &Vec<Request>)
        ensures
            requests@ == self.asked(),
    {
        &self.requests
    }

    /// The pauses between the accesses.
    pub fn pauses(&self) -> (pauses: &Vec<Noted>)
        ensures
            pauses@ == self.noted(),
    {
        &self.pauses
    }

    /// The answers, to be added to.
    pub fn into_answers(self) -> (answers: Vec<Answer>)
        ensures
            answers@ == self.known(),
    {
        self.answers
    }

    /// Adds the pauses after `position` accesses to `steps`.
    fn add_pauses(&self, position: usize, steps: &mut Vec<Step>)
        ensures
            final(steps)@ == old(steps)@ + pauses_at(self.noted(), position as int),
    {
        let mut k: usize = 0;
        assert(self.pauses@.take(0) =~= Seq::empty());
        assert(old(steps)@ + Seq::empty() =~= old(steps)@);
        while k < self.pauses.len()
            invariant
                k <= self.pauses@.len(),
                steps@ == old(steps)@ + pauses_at(self.pauses@.take(k as int), position as int),
            decreases self.pauses@.len() - k,
        {
            proof {
                let then = self.pauses@.take(k + 1);
                assert(then.drop_last() =~= self.pauses@.take(k as int));
                assert(then.last() == self.pauses@[k as int]);
            }
            if self.pauses[k].position == position {
                steps.push(Step::Pause(self.pauses[k].pause));
            }
            k += 1;
        }
        assert(self.pauses@.take(k as int) =~= self.pauses@);
    }

    /// What is to be done next.
    pub fn batch(&self) -> (steps: Vec<Step>)
        ensures
            steps@ == self.next_steps(),
    {
        let mut steps: Vec<Step> = Vec::new();
        let known: usize = self.answers.len();
        let all: usize = self.requests.len();
        assert(Seq::<Step>::empty() + pauses_at(self.noted(), all as int) =~= pauses_at(
            self.noted(),
            all as int,
        ));
        if all <= known {
            self.add_pauses(all, &mut steps);
            return steps;
        }
        let mut i: usize = known;
        let ghost to: int = if all < known + self.ahead {
            all as int
        } else {
            known + self.ahead
        };
        while i < all && i - known < self.ahead
            invariant_except_break
                batch_end(self.requests@, known as int, to) == batch_end(
                    self.requests@,
                    i as int,
                    to,
                ),
            invariant
                known == self.answers@.len(),
                all == self.requests@.len(),
                known <= i <= to,
                to == if all < known + self.ahead {
                    all as int
                } else {
                    known + self.ahead
                },
                steps@ == schedule(self.noted(), known as int, i as int),
            ensures
                i == batch_end(self.requests@, known as int, to),
            decreases all - i,
        {
            self.add_pauses(i, &mut steps);
            steps.push(Step::Access(i));
            assert(steps@ =~= schedule(self.noted(), known as int, i + 1));
            let is_read = match &self.requests[i] {
                Request::Read { .. } => true,
                Request::Write { .. } => false,
            };
            i += 1;
            if is_read {
                break;
            }
        }
        steps
    }
}

/// While an access is without an answer, and the window holds at least one, the
/// next batch begins with the first such access, behind its pauses.
pub proof fn batch_makes_progress(transcript: &Transcript)
    requires
        !transcript.answered(),
        transcript.window() > 0,
    ensures
        transcript.next_steps().contains(Step::Access(transcript.known().len() as usize)),
{
    let known = transcript.known().len() as int;
    let all = transcript.asked().len() as int;
    let to = if all < known + transcript.window() {
        all
    } else {
        known + transcript.window()
    };
    let end = batch_end(transcript.asked(), known, to);
    lemma_batch_end(transcript.asked(), known, to);
    lemma_schedule_contains(transcript.noted(), known, end);
}

/// When every access has an answer, every access got the answer that was recorded for
/// it.
pub proof fn answers_are_recorded(transcript: &Transcript, n: nat)
    requires
        transcript.answered(),
        n < transcript.asked().len(),
    ensures
        transcript.world().at(n).bytes == transcript.known()[n as int].data@,
        transcript.world().at(n).result == if transcript.known()[n as int].carried_out {
            Ok(())
        } else {
            Err(Stop::Refused(n as usize))
        },
{
}

/// Every access of a batch but the last is a write: what comes after it does not hang
/// on an answer that is not known yet.
pub proof fn batch_reads_last(transcript: &Transcript, n: int)
    requires
        !transcript.answered(),
        ({
            let known = transcript.known().len() as int;
            let all = transcript.asked().len() as int;
            let to = if all < known + transcript.window() {
                all
            } else {
                known + transcript.window()
            };
            known <= n < batch_end(transcript.asked(), known, to) - 1
        }),
    ensures
        transcript.asked()[n] is Write,
{
    let known = transcript.known().len() as int;
    let all = transcript.asked().len() as int;
    let to = if all < known + transcript.window() {
        all
    } else {
        known + transcript.window()
    };
    lemma_only_writes(transcript.asked(), known, to, n);
}

/// A pause is made when its turn comes: it is among the next steps if the access that
/// followed it is in the batch, or if no access is left and none followed it.
pub proof fn noted_pauses_are_made(transcript: &Transcript, i: int)
    requires
        0 <= i < transcript.noted().len(),
        ({
            let position = transcript.noted()[i].position;
            if transcript.answered() {
                position == transcript.asked().len()
            } else {
                transcript.known().len() <= position < transcript.next_end()
            }
        }),
    ensures
        transcript.next_steps().contains(Step::Pause(transcript.noted()[i].pause)),
{
    lemma_pauses_at(transcript.noted(), i);
    if !transcript.answered() {
        lemma_scheduled(
            transcript.noted(),
            transcript.known().len() as int,
            transcript.next_end(),
            transcript.noted()[i].position as int,
            Step::Pause(transcript.noted()[i].pause),
        );
    }
}

proof fn lemma_scheduled(pauses: Seq<Noted>, from: int, to: int, position: int, step: Step)
    requires
        from <= position < to,
        pauses_at(pauses, position).contains(step),
    ensures
        schedule(pauses, from, to).contains(step),
    decreases to - from,
{
    let last = pauses_at(pauses, to - 1).push(Step::Access((to - 1) as usize));
    let before = schedule(pauses, from, to - 1);
    if position == to - 1 {
        let at = pauses_at(pauses, position);
        let k = choose|k: int| 0 <= k < at.len() && at[k] == step;
        assert((before + last)[before.len() + k] == step);
    } else {
        lemma_scheduled(pauses, from, to - 1, position, step);
        let k = choose|k: int| 0 <= k < before.len() && before[k] == step;
        assert((before + last)[k] == step);
    }
}

proof fn lemma_pauses_at(pauses: Seq<Noted>, i: int)
    requires
        0 <= i < pauses.len(),
    ensures
        pauses_at(pauses, pauses[i].position as int).contains(Step::Pause(pauses[i].pause)),
    decreases pauses.len(),
{
    let position = pauses[i].position as int;
    let before = pauses_at(pauses.drop_last(), position);
    if i == pauses.len() - 1 {
        assert(before.push(Step::Pause(pauses[i].pause))[before.len() as int] == Step::Pause(
            pauses[i].pause,
        ));
    } else {
        lemma_pauses_at(pauses.drop_last(), i);
        let k = choose|k: int| 0 <= k < before.len() && before[k] == Step::Pause(pauses[i].pause);
        assert(pauses_at(pauses, position)[k] == Step::Pause(pauses[i].pause));
    }
}

proof fn lemma_only_writes(requests: Seq<Request>, from: int, to: int, n: int)
    requires
        from <= n < batch_end(requests, from, to) - 1,
    ensures
        requests[n] is Write,
    decreases to - from,
{
    reveal_with_fuel(batch_end, 2);
    if from < to && !(requests[from] is Read) && from < n {
        lemma_only_writes(requests, from + 1, to, n);
    }
}

proof fn lemma_batch_end(requests: Seq<Request>, from: int, to: int)
    requires
        from < to,
    ensures
        from < batch_end(requests, from, to) <= to,
    decreases to - from,
{
    reveal_with_fuel(batch_end, 2);
    if !(requests[from] is Read) && from + 1 < to {
        lemma_batch_end(requests, from + 1, to);
    }
}

proof fn lemma_schedule_contains(pauses: Seq<Noted>, from: int, to: int)
    requires
        from < to,
    ensures
        schedule(pauses, from, to).contains(Step::Access(from as usize)),
    decreases to - from,
{
    let last = pauses_at(pauses, to - 1).push(Step::Access((to - 1) as usize));
    let before = schedule(pauses, from, to - 1);
    if from == to - 1 {
        assert((before + last)[before.len() + last.len() - 1] == Step::Access(from as usize));
    } else {
        lemma_schedule_contains(pauses, from, to - 1);
        let i = choose|i: int| 0 <= i < before.len() && before[i] == Step::Access(from as usize);
        assert((before + last)[i] == Step::Access(from as usize));
    }
}

impl Interface for Transcript {
    type Error = Stop;

    open spec fn world(&self) -> World<Stop> {
        world_of(self.known(), self.window())
    }

    open spec fn log(&self) -> Seq<Access<Stop>> {
        Seq::new(
            self.asked().len(),
            |i: int|
                carried_out(self.asked()[i], outcome_of(self.known(), self.window(), i as nat)),
        )
    }

    open spec fn waits(&self) -> Seq<Wait> {
        Seq::new(
            self.noted().len(),
            |i: int|
                Wait {
                    position: self.noted()[i].position as nat,
                    pause: self.noted()[i].pause,
                },
        )
    }

    fn read_register(&mut self, address: u8, size_bits: u32, data: &mut [u8]) -> (res: Result<
        (),
        Stop,
    >) {
        let n: usize = self.requests.len();
        let len: usize = data.len();
        let ghost outcome = outcome_of(self.answers@, self.ahead as nat, n as nat);
        let mut i: usize = 0;
        while i < len
            invariant
                i <= len == data@.len(),
                outcome.bytes == if n < self.answers@.len() {
                    self.answers@[n as int].data@
                } else {
                    Seq::<u8>::empty()
                },
                forall|j: int| 0 <= j < i ==> #[trigger] data@[j] == outcome.data(len as nat)[j],
            decreases len - i,
        {
            data[i] = if n < self.answers.len() && i < self.answers[n].data.len() {
                self.answers[n].data[i]
            } else {
                0
            };
            i += 1;
        }
        assert(data@ =~= outcome.data(len as nat));
        self.requests.push(Request::Read { address, size_bits, len });
        proof {
            assert(self.log() =~= old(self).log().push(
                carried_out(Request::Read { address, size_bits, len }, outcome),
            ));
        }
        self.result(n)
    }

    fn write_register(&mut self, address: u8, size_bits: u32, data: &[u8]) -> (res: Result<
        (),
        Stop,
    >) {
        let n: usize = self.requests.len();
        let ghost outcome = outcome_of(self.answers@, self.ahead as nat, n as nat);
        let mut bytes: Vec<u8> = Vec::new();
        while bytes.len() < data.len()
            invariant
                bytes@.len() <= data@.len(),
                bytes@ == data@.take(bytes@.len() as int),
            decreases data@.len() - bytes@.len(),
        {
            let next: usize = bytes.len();
            bytes.push(data[next]);
        }
        assert(bytes@ =~= data@);
        let request = Request::Write { address, size_bits, data: bytes };
        let ghost pushed = request;
        self.requests.push(request);
        proof {
            assert(self.log() =~= old(self).log().push(carried_out(pushed, outcome)));
        }
        self.result(n)
    }

    fn note_pause(&mut self, pause: Pause)
        ensures
            final(self).noted() == old(self).noted().push(
                Noted { position: old(self).asked().len() as usize, pause },
            ),
            final(self).asked() == old(self).asked(),
            final(self).known() == old(self).known(),
            final(self).window() == old(self).window(),
    {
        let position: usize = self.requests.len();
        self.pauses.push(Noted { position, pause });
        proof {
            assert(self.waits() =~= old(self).waits().push(
                Wait { position: old(self).log().len(), pause },
            ));
        }
    }
}

impl Transcript {
    /// What access number `n` reports.
    fn result(&self, n: usize) -> (res: Result<(), Stop>)
        ensures
            res == outcome_of(self.known(), self.window(), n as nat).result,
    {
        let known: usize = self.answers.len();
        if n < known {
            if self.answers[n].carried_out {
                Ok(())
            } else {
                Err(Stop::Refused(n))
            }
        } else if n - known < self.ahead {
            Ok(())
        } else {
            Err(Stop::Unanswered)
        }
    }
}

/// A delay provider that does not wait. On a [`Transcript`] the pauses are among
/// the steps to be done.
pub struct NoWait {
    made: Ghost<Seq<Pause>>,
}

impl NoWait {
    /// A provider that has made no pauses.
    pub fn new() -> (provider: Self)
        ensures
            provider.log() == Seq::<Pause>::empty(),
    {
        NoWait { made: Ghost(Seq::empty()) }
    }
}

impl Delay for NoWait {
    closed spec fn log(&self) -> Seq<Pause> {
        self.made@
    }

    fn delay_ms(&mut self, ms: u32) {
        proof {
            self.made@ = self.made@.push(Pause::Ms(ms));
        }
    }

    fn delay_us(&mut self, us: u32) {
        proof {
            self.made@ = self.made@.push(Pause::Us(us));
        }
    }
}

} // verus!
