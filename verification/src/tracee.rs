//! A model of the tracee, to say what the tracer's requests come to.
//!
//! The model holds what the requests can tell apart: the words of memory,
//! the instruction pointer, and how often the instruction at each address
//! has run. What a request does to it is fixed; whether a request is
//! carried out is not, and neither is the news that a wait brings. The
//! laws of this file hold of every tracee that answers as the model does
//! whenever it does not refuse.

use crate::breakpoint::{
    bit_shift, byte_of, lemma_byte_overwritten, lemma_byte_read_back, lemma_byte_restored,
    lemma_other_bytes_kept, lemma_places_differ, lemma_shift_is_byte_shift, struck_address,
    word_address, Breakpoint, TRAP_BYTE,
};
use crate::hit::{hit_position, HitStep};
use crate::protocol::{Exchange, Request, Response, TraceError};
use crate::statemachine::linux::{
    cause_of, init_post, install_run, install_step, look_post, planted, stop_post, target_of,
    RunView, StopCause, TrapTarget,
};
use crate::statemachine::TestState;
use crate::traces::{addresses_of, hit_all};
use vstd::prelude::*;

verus! {

/// A stopped tracee, as the tracer's requests see it.
pub struct Tracee {
    /// Its process id.
    pub pid: i32,
    /// The words of its memory, by their aligned addresses. An address that
    /// is not there is not mapped.
    pub memory: Map<u64, u64>,
    /// The address of the instruction that it runs next.
    pub ip: u64,
    /// How often the instruction at an address has run.
    pub executed: Map<u64, nat>,
}

impl Tracee {
    /// The byte at `address`.
    pub open spec fn byte_at(self, address: u64) -> u8 {
        byte_of(self.memory[word_address(address)], bit_shift(address))
    }

    /// How often the instruction at `address` has run.
    pub open spec fn count(self, address: u64) -> nat {
        if self.executed.contains_key(address) {
            self.executed[address]
        } else {
            0
        }
    }

    /// The address behind `address`, where the next instruction stands.
    pub open spec fn behind(address: u64) -> u64 {
        if address < u64::MAX {
            (address + 1) as u64
        } else {
            0
        }
    }

    /// The tracee after one instruction. A trap stops it at once, and no
    /// instruction has run; any other instruction runs and is counted.
    pub open spec fn stepped(self) -> Tracee {
        if self.byte_at(self.ip) == TRAP_BYTE {
            Tracee { ip: Self::behind(self.ip), ..self }
        } else {
            Tracee {
                ip: Self::behind(self.ip),
                executed: self.executed.insert(self.ip, self.count(self.ip) + 1),
                ..self
            }
        }
    }

    /// The tracee after `request` was carried out.
    pub open spec fn effect(self, request: Request) -> Tracee {
        match request {
            Request::SetIp(address) => Tracee { ip: address, ..self },
            Request::Poke(address, word) => if self.memory.contains_key(address) {
                Tracee { memory: self.memory.insert(address, word), ..self }
            } else {
                self
            },
            Request::SingleStep => self.stepped(),
            _ => self,
        }
    }

    /// What the tracee answers to `request` when it carries it out. A wait
    /// has no answer of the tracee's own: its news is not the model's to
    /// give.
    pub open spec fn answer(self, request: Request) -> Option<Response> {
        match request {
            Request::Poll | Request::AwaitStop => None,
            Request::ReadIp => Some(Response::Word(self.ip)),
            Request::Peek(address) => if self.memory.contains_key(address) {
                Some(Response::Word(self.memory[address]))
            } else {
                Some(Response::Failed(TraceError::BadAddress))
            },
            Request::Poke(address, _) => if self.memory.contains_key(address) {
                Some(Response::Done)
            } else {
                Some(Response::Failed(TraceError::BadAddress))
            },
            _ => Some(Response::Done),
        }
    }

    /// Whether `response` may come back for `request`: a refusal always
    /// may; a wait may bring any news; anything else is answered as the
    /// tracee answers.
    pub open spec fn allows(self, request: Request, response: Response) -> bool {
        response is Failed || match self.answer(request) {
            Some(own) => response == own,
            None => response is Event,
        }
    }

    /// The tracee after `exchanges`: a request that was refused has left it
    /// as it was.
    pub open spec fn after(self, exchanges: Seq<Exchange>) -> Tracee
        decreases exchanges.len(),
    {
        if exchanges.len() == 0 {
            self
        } else {
            let before = self.after(exchanges.drop_last());
            if exchanges.last().response is Failed {
                before
            } else {
                before.effect(exchanges.last().request)
            }
        }
    }

    /// Whether `exchanges` may be had with this tracee: each request goes
    /// to it, and each response is one that it allows where it then
    /// stands.
    pub open spec fn admits(self, exchanges: Seq<Exchange>) -> bool
        decreases exchanges.len(),
    {
        exchanges.len() == 0 || {
            let last = exchanges.last();
            &&& self.admits(exchanges.drop_last())
            &&& last.pid == self.pid
            &&& self.after(exchanges.drop_last()).allows(last.request, last.response)
        }
    }
}

/// Whether none of `exchanges` was refused.
pub open spec fn unrefused(exchanges: Seq<Exchange>) -> bool {
    forall|i: int| 0 <= i < exchanges.len() ==> !((#[trigger] exchanges[i]).response is Failed)
}

/// Whether the flags of `table` tell the truth of the memory of `tracee`:
/// every breakpoint is filed under its address, which is mapped, and the
/// byte there is the trap if the breakpoint is enabled, and the byte that
/// the trap replaced if it is not.
pub open spec fn faithful(table: Map<u64, Breakpoint>, tracee: Tracee) -> bool {
    forall|address: u64| #[trigger]
        table.contains_key(address) ==> {
            &&& table[address].address == address
            &&& tracee.memory.contains_key(word_address(address))
            &&& tracee.byte_at(address) == if table[address].enabled {
                TRAP_BYTE
            } else {
                table[address].original
            }
        }
}

/// A word that is written to the tracee is the word that is read there
/// next, and every other word reads as before.
pub proof fn lemma_write_then_read(tracee: Tracee, address: u64, word: u64, other: u64)
    requires
        tracee.memory.contains_key(address),
    ensures
        tracee.answer(Request::Poke(address, word)) == Some(Response::Done),
        tracee.effect(Request::Poke(address, word)).answer(Request::Peek(address)) == Some(
            Response::Word(word),
        ),
        other != address ==> tracee.effect(Request::Poke(address, word)).answer(
            Request::Peek(other),
        ) == tracee.answer(Request::Peek(other)),
{
}

/// No request changes which process the tracee is, nor which of its
/// addresses are mapped.
pub proof fn lemma_frame_kept(tracee: Tracee, exchanges: Seq<Exchange>)
    ensures
        tracee.after(exchanges).pid == tracee.pid,
        tracee.after(exchanges).memory.dom() == tracee.memory.dom(),
    decreases exchanges.len(),
{
    if exchanges.len() > 0 {
        lemma_frame_kept(tracee, exchanges.drop_last());
        let before = tracee.after(exchanges.drop_last());
        let then = before.effect(exchanges.last().request);
        assert(then.memory.dom() =~= before.memory.dom());
    }
}

/// What a tracee admits, it admits from its beginning, and goes on to
/// admit the rest from where the beginning left it.
pub proof fn lemma_admits_split(tracee: Tracee, exchanges: Seq<Exchange>, k: int)
    requires
        tracee.admits(exchanges),
        0 <= k <= exchanges.len(),
    ensures
        tracee.admits(exchanges.take(k)),
        tracee.after(exchanges.take(k)).admits(exchanges.skip(k)),
        tracee.after(exchanges.take(k)).after(exchanges.skip(k)) == tracee.after(exchanges),
    decreases exchanges.len(),
{
    if k == exchanges.len() {
        assert(exchanges.take(k) =~= exchanges);
        assert(exchanges.skip(k) =~= Seq::<Exchange>::empty());
    } else {
        let shorter = exchanges.drop_last();
        lemma_admits_split(tracee, shorter, k);
        lemma_frame_kept(tracee, exchanges.take(k));
        assert(shorter.take(k) =~= exchanges.take(k));
        assert(exchanges.skip(k).drop_last() =~= shorter.skip(k));
        assert(exchanges.skip(k).last() == exchanges.last());
    }
}

/// What one exchange comes to: the tracee after it, and that it allowed
/// the response.
proof fn lemma_one_exchange(tracee: Tracee, exchange: Exchange)
    ensures
        tracee.after(seq![exchange]) == if exchange.response is Failed {
            tracee
        } else {
            tracee.effect(exchange.request)
        },
        tracee.admits(seq![exchange]) ==> tracee.allows(exchange.request, exchange.response),
{
    let only = seq![exchange];
    assert(only.drop_last() =~= Seq::<Exchange>::empty());
    assert(only.last() == exchange);
    assert(tracee.after(only.drop_last()) == tracee);
}

/// One exchange of a resolution that the tracee admits: the request is the
/// one that the resolution named, the tracee allowed the response, and
/// both move on by it.
proof fn lemma_exchange(tracee: Tracee, bp: Breakpoint, exchanges: Seq<Exchange>, k: int)
    requires
        hit_position(bp, tracee.pid, exchanges) is Some,
        tracee.admits(exchanges),
        0 <= k < exchanges.len(),
    ensures
        hit_position(bp, tracee.pid, exchanges.take(k)) matches Some(HitStep::Ask(cycle, request))
            && {
            let before = tracee.after(exchanges.take(k));
            let response = exchanges[k].response;
            &&& exchanges[k].request == request
            &&& before.allows(request, response)
            &&& hit_position(bp, tracee.pid, exchanges.take(k + 1)) == Some(cycle.next(response))
            &&& tracee.after(exchanges.take(k + 1)) == if response is Failed {
                before
            } else {
                before.effect(request)
            }
        },
    decreases exchanges.len(),
{
    let shorter = exchanges.drop_last();
    if k == exchanges.len() - 1 {
        assert(exchanges.take(k) =~= shorter);
        assert(exchanges.take(k + 1) =~= exchanges);
    } else {
        lemma_exchange(tracee, bp, shorter, k);
        assert(shorter.take(k) =~= exchanges.take(k));
        assert(shorter.take(k + 1) =~= exchanges.take(k + 1));
    }
}

/// A resolution that has ended has no exchange behind its end.
proof fn lemma_ended(tracee: Tracee, bp: Breakpoint, exchanges: Seq<Exchange>, k: int)
    requires
        hit_position(bp, tracee.pid, exchanges) is Some,
        tracee.admits(exchanges),
        0 <= k <= exchanges.len(),
        hit_position(bp, tracee.pid, exchanges.take(k)) matches Some(step) && !(step is Ask),
    ensures
        k == exchanges.len(),
{
    if k < exchanges.len() {
        lemma_exchange(tracee, bp, exchanges, k);
    }
}

/// Where the resolution of a hit stands, and the tracee with it, after
/// the first `k` exchanges, if none of them ended it: the byte at the
/// breakpoint, the flag that the resolution keeps, and what has run.
spec fn hit_progress(tracee: Tracee, bp: Breakpoint, then: Tracee, step: HitStep, k: int) -> bool {
    let restored = Tracee {
        memory: tracee.memory.insert(bp.word(), bp.restored(tracee.memory[bp.word()])),
        ip: bp.address,
        ..tracee
    };
    &&& step matches HitStep::Ask(_, request) && if k == 0 {
        request == Request::SetIp(bp.address)
    } else if k == 1 || k == 5 {
        request == Request::Peek(bp.word())
    } else if k == 2 {
        request == Request::Poke(bp.word(), bp.restored(tracee.memory[bp.word()]))
    } else if k == 3 {
        request == Request::SingleStep
    } else if k == 4 {
        request == Request::AwaitStop
    } else if k == 6 {
        request == Request::Poke(bp.word(), bp.armed(restored.memory[bp.word()]))
    } else {
        request is Continue
    }
    &&& step.rank() == 8 - k
    &&& if k <= 2 {
        &&& then.memory == tracee.memory
        &&& then.executed == tracee.executed
        &&& step.breakpoint() == bp
        &&& k >= 1 ==> then.ip == bp.address
    } else if k <= 6 {
        &&& then.memory == restored.memory
        &&& step.breakpoint() == (Breakpoint { enabled: false, ..bp })
        &&& then.executed == if k == 3 {
            tracee.executed
        } else {
            restored.stepped().executed
        }
        &&& k == 3 ==> then.ip == bp.address
    } else {
        &&& then.memory == restored.memory.insert(bp.word(), bp.armed(restored.memory[bp.word()]))
        &&& step.breakpoint() == (Breakpoint { enabled: true, ..bp })
        &&& then.executed == restored.stepped().executed
    }
}

/// The bytes of the tracee's memory through the resolution of a hit: the
/// byte at the breakpoint is the trap or the replaced byte as the flag
/// says, and every other byte is what it was.
proof fn lemma_hit_bytes(tracee: Tracee, bp: Breakpoint)
    requires
        tracee.memory.contains_key(bp.word()),
    ensures
        ({
            let word = tracee.memory[bp.word()];
            let restored = Tracee {
                memory: tracee.memory.insert(bp.word(), bp.restored(word)),
                ip: bp.address,
                ..tracee
            };
            let armed = Tracee {
                memory: restored.memory.insert(bp.word(), bp.armed(bp.restored(word))),
                ..restored
            };
            &&& restored.byte_at(bp.address) == bp.original
            &&& armed.byte_at(bp.address) == TRAP_BYTE
            &&& tracee.byte_at(bp.address) == TRAP_BYTE ==> armed.memory == tracee.memory
            &&& tracee.byte_at(bp.address) == bp.original ==> restored.memory == tracee.memory
            &&& forall|other: u64|
                other != bp.address ==> restored.byte_at(other) == tracee.byte_at(other)
                    && armed.byte_at(other) == tracee.byte_at(other)
        }),
{
    let word = tracee.memory[bp.word()];
    let shift = bp.shift();
    let plain = bp.restored(word);
    lemma_shift_is_byte_shift(bp.address);
    lemma_byte_read_back(word, shift, bp.original);
    lemma_byte_read_back(plain, shift, TRAP_BYTE);
    lemma_byte_overwritten(word, shift, bp.original, TRAP_BYTE);
    lemma_byte_restored(word, shift, bp.original);
    lemma_byte_restored(word, shift, TRAP_BYTE);
    let restored = Tracee {
        memory: tracee.memory.insert(bp.word(), plain),
        ip: bp.address,
        ..tracee
    };
    let armed = Tracee { memory: restored.memory.insert(bp.word(), bp.armed(plain)), ..restored };
    if tracee.byte_at(bp.address) == TRAP_BYTE {
        assert(bp.armed(plain) == word);
        assert(armed.memory =~= tracee.memory);
    }
    if tracee.byte_at(bp.address) == bp.original {
        assert(plain == word);
        assert(restored.memory =~= tracee.memory);
    }
    assert forall|other: u64| other != bp.address implies restored.byte_at(other)
        == tracee.byte_at(other) && armed.byte_at(other) == tracee.byte_at(other) by {
        if word_address(other) == bp.word() {
            lemma_places_differ(other, bp.address);
            lemma_shift_is_byte_shift(other);
            lemma_other_bytes_kept(word, shift, bp.original, bit_shift(other));
            lemma_other_bytes_kept(plain, shift, TRAP_BYTE, bit_shift(other));
        }
    }
}

/// The resolution of a hit moves on by one exchange, or ends with it.
proof fn lemma_hit_step(tracee: Tracee, bp: Breakpoint, exchanges: Seq<Exchange>, k: int)
    requires
        hit_position(bp, tracee.pid, exchanges) is Some,
        tracee.admits(exchanges),
        tracee.memory.contains_key(bp.word()),
        0 <= k < exchanges.len(),
        k < 8,
        hit_position(bp, tracee.pid, exchanges.take(k)) matches Some(step) && hit_progress(
            tracee,
            bp,
            tracee.after(exchanges.take(k)),
            step,
            k,
        ),
    ensures
        ({
            let next = hit_position(bp, tracee.pid, exchanges.take(k + 1))->0;
            let then = tracee.after(exchanges.take(k + 1));
            let before = tracee.after(exchanges.take(k));
            &&& hit_position(bp, tracee.pid, exchanges.take(k + 1)) is Some
            &&& if next is Ask {
                &&& k < 7
                &&& hit_progress(tracee, bp, then, next, k + 1)
            } else {
                &&& k + 1 == exchanges.len()
                &&& then.memory == before.memory
                &&& then.executed == before.executed
                &&& next is Resumed <==> k == 7 && !(exchanges[k].response is Failed)
                &&& next.breakpoint() == if k == 7 {
                    Breakpoint { enabled: true, ..bp }
                } else if k <= 2 {
                    bp
                } else {
                    Breakpoint { enabled: false, ..bp }
                }
            }
        }),
{
    lemma_exchange(tracee, bp, exchanges, k);
    let next = hit_position(bp, tracee.pid, exchanges.take(k + 1))->0;
    if !(next is Ask) {
        lemma_ended(tracee, bp, exchanges, k + 1);
    }
}

/// After the resolution of a hit has run to its end, the trap stands in
/// the tracee's memory again, the memory is what it was before the hit,
/// and the instruction that the trap had replaced has run exactly once
/// more.
///
/// This holds of a tracee whose memory holds the trap at the breakpoint
/// when it is hit, and of a breakpoint whose replaced byte is not itself
/// the trap: such an instruction would stop the tracee again and not run.
pub proof fn lemma_hit_plants_trap_again(
    tracee: Tracee,
    bp: Breakpoint,
    exchanges: Seq<Exchange>,
    end: HitStep,
)
    requires
        hit_position(bp, tracee.pid, exchanges) == Some(end),
        end is Resumed,
        tracee.admits(exchanges),
        tracee.memory.contains_key(bp.word()),
        tracee.byte_at(bp.address) == TRAP_BYTE,
        bp.original != TRAP_BYTE,
    ensures
        end == HitStep::Resumed(Breakpoint { enabled: true, ..bp }),
        exchanges.len() == 8,
        unrefused(exchanges),
        tracee.after(exchanges).byte_at(bp.address) == TRAP_BYTE,
        tracee.after(exchanges).memory == tracee.memory,
        tracee.after(exchanges).count(bp.address) == tracee.count(bp.address) + 1,
        forall|other: u64|
            other != bp.address ==> tracee.after(exchanges).count(other) == tracee.count(other),
{
    let n = exchanges.len() as int;
    lemma_hit_bytes(tracee, bp);
    lemma_hit_run(tracee, bp, exchanges, n);
    assert(exchanges.take(n) =~= exchanges);
    assert(n == 8);
    assert forall|i: int| 0 <= i < n implies !((#[trigger] exchanges[i]).response is Failed) by {
        lemma_exchange(tracee, bp, exchanges, i);
        if exchanges[i].response is Failed {
            lemma_ended(tracee, bp, exchanges, i + 1);
        }
    }
}

/// The resolution of a hit, exchange by exchange, up to the `k`th: it
/// stands where its progress says, or it has ended there.
proof fn lemma_hit_run(tracee: Tracee, bp: Breakpoint, exchanges: Seq<Exchange>, k: int)
    requires
        hit_position(bp, tracee.pid, exchanges) is Some,
        tracee.admits(exchanges),
        tracee.memory.contains_key(bp.word()),
        0 <= k <= exchanges.len(),
    ensures
        k <= 8,
        ({
            let step = hit_position(bp, tracee.pid, exchanges.take(k))->0;
            let then = tracee.after(exchanges.take(k));
            let word = tracee.memory[bp.word()];
            let restored = Tracee {
                memory: tracee.memory.insert(bp.word(), bp.restored(word)),
                ip: bp.address,
                ..tracee
            };
            let armed = restored.memory.insert(bp.word(), bp.armed(bp.restored(word)));
            &&& hit_position(bp, tracee.pid, exchanges.take(k)) is Some
            &&& step is Ask ==> hit_progress(tracee, bp, then, step, k)
            &&& !(step is Ask) ==> {
                &&& k == exchanges.len()
                &&& k >= 1
                &&& step is Resumed <==> k == 8 && !(exchanges[k - 1].response is Failed)
                &&& if k == 8 {
                    &&& step.breakpoint() == (Breakpoint { enabled: true, ..bp })
                    &&& then.memory == armed
                    &&& then.executed == restored.stepped().executed
                } else if k <= 3 {
                    &&& step.breakpoint() == bp
                    &&& then.memory == tracee.memory
                    &&& then.executed == tracee.executed
                } else {
                    &&& step.breakpoint() == (Breakpoint { enabled: false, ..bp })
                    &&& then.memory == restored.memory
                }
            }
        }),
    decreases k,
{
    if k == 0 {
        assert(exchanges.take(0) =~= Seq::<Exchange>::empty());
    } else {
        lemma_hit_run(tracee, bp, exchanges, k - 1);
        let before = hit_position(bp, tracee.pid, exchanges.take(k - 1))->0;
        if !(before is Ask) {
            lemma_ended(tracee, bp, exchanges, k - 1);
        }
        lemma_hit_step(tracee, bp, exchanges, k - 1);
    }
}

/// However the resolution of a hit ends, the flag that it leaves tells the
/// truth of the tracee's memory: the byte at the breakpoint is the trap if
/// the breakpoint is left enabled, and the replaced byte if it is not. No
/// other byte has changed.
pub proof fn lemma_hit_keeps_faith(
    tracee: Tracee,
    bp: Breakpoint,
    exchanges: Seq<Exchange>,
    end: HitStep,
)
    requires
        hit_position(bp, tracee.pid, exchanges) == Some(end),
        !(end is Ask),
        tracee.admits(exchanges),
        tracee.memory.contains_key(bp.word()),
        tracee.byte_at(bp.address) == if bp.enabled {
            TRAP_BYTE
        } else {
            bp.original
        },
    ensures
        end.breakpoint().address == bp.address,
        end.breakpoint().original == bp.original,
        tracee.after(exchanges).byte_at(bp.address) == if end.breakpoint().enabled {
            TRAP_BYTE
        } else {
            bp.original
        },
        forall|other: u64|
            other != bp.address ==> tracee.after(exchanges).byte_at(other) == tracee.byte_at(
                other,
            ),
{
    let n = exchanges.len() as int;
    lemma_hit_bytes(tracee, bp);
    lemma_hit_run(tracee, bp, exchanges, n);
    assert(exchanges.take(n) =~= exchanges);
}

/// Planting one trap, as the tracee sees it. If the breakpoint is filed,
/// the byte at its address has become the trap and the byte that it was is
/// kept in the breakpoint; if it is not, the memory is what it was. No
/// other byte changes either way.
proof fn lemma_install_step_cases(
    tracee: Tracee,
    table: Map<u64, Breakpoint>,
    address: u64,
    exchanges: Seq<Exchange>,
)
    requires
        install_step(table, tracee.pid, address, exchanges) matches Some((taken, _)) && 0 <= taken
            <= exchanges.len() && tracee.admits(exchanges.take(taken)),
        !table.contains_key(address),
    ensures
        ({
            let (taken, next) = install_step(table, tracee.pid, address, exchanges)->0;
            let then = tracee.after(exchanges.take(taken));
            let mapped = tracee.memory.contains_key(word_address(address));
            &&& next.contains_key(address) ==> {
                &&& mapped
                &&& next == table.insert(
                    address,
                    (Breakpoint { address, original: tracee.byte_at(address), enabled: true }),
                )
                &&& then.byte_at(address) == TRAP_BYTE
            }
            &&& !next.contains_key(address) ==> next == table && then.memory == tracee.memory
            &&& forall|other: u64| other != address ==> then.byte_at(other) == tracee.byte_at(other)
            &&& unrefused(exchanges.take(taken)) && mapped ==> next.contains_key(address)
        }),
{
    let (taken, next) = install_step(table, tracee.pid, address, exchanges)->0;
    let used = exchanges.take(taken);
    let word = tracee.memory[word_address(address)];
    let bp = planted(address, word);
    lemma_shift_is_byte_shift(address);
    lemma_byte_read_back(word, bit_shift(address), TRAP_BYTE);
    assert(used.len() >= 1);
    lemma_admits_split(tracee, used, 1);
    assert(used.take(1) =~= seq![exchanges[0]]);
    lemma_one_exchange(tracee, exchanges[0]);
    assert(used[0] == exchanges[0]);
    if taken == 2 {
        assert(used.skip(1) =~= seq![exchanges[1]]);
        lemma_one_exchange(tracee, exchanges[1]);
        assert(used[1] == exchanges[1]);
        assert(exchanges[0].response == Response::Word(word));
        let then = tracee.after(used);
        if exchanges[1].response is Done {
            assert(then.memory == tracee.memory.insert(word_address(address), bp.armed(word)));
            assert forall|other: u64| other != address implies then.byte_at(other)
                == tracee.byte_at(other) by {
                if word_address(other) == word_address(address) {
                    lemma_places_differ(other, address);
                    lemma_shift_is_byte_shift(other);
                    lemma_other_bytes_kept(word, bit_shift(address), TRAP_BYTE, bit_shift(other));
                }
            }
        }
    } else {
        assert(used =~= seq![exchanges[0]]);
    }
}

/// Planting the traps, as the tracee sees it. The flags of the table tell
/// the truth of the memory afterwards as they did before; the breakpoints
/// that were there are as they were; each new one stands at one of the
/// addresses, is enabled, and keeps the byte that stood there; and no byte
/// changes but under a new breakpoint. Where nothing is refused, every
/// mapped address has its breakpoint.
pub proof fn lemma_install_keeps_faith(
    tracee: Tracee,
    table: Map<u64, Breakpoint>,
    addresses: Seq<u64>,
    exchanges: Seq<Exchange>,
)
    requires
        install_run(table, tracee.pid, addresses, exchanges) is Some,
        tracee.admits(exchanges),
        faithful(table, tracee),
    ensures
        ({
            let result = install_run(table, tracee.pid, addresses, exchanges)->0;
            let then = tracee.after(exchanges);
            &&& faithful(result, then)
            &&& forall|a: u64| #[trigger]
                table.contains_key(a) ==> result.contains_key(a) && result[a] == table[a]
            &&& forall|a: u64|
                #[trigger] result.contains_key(a) && !table.contains_key(a) ==> {
                    &&& addresses.contains(a)
                    &&& result[a] == (Breakpoint {
                        address: a,
                        original: tracee.byte_at(a),
                        enabled: true,
                    })
                }
            &&& forall|b: u64|
                !(#[trigger] result.contains_key(b)) ==> then.byte_at(b) == tracee.byte_at(b)
            &&& unrefused(exchanges) ==> forall|i: int|
                0 <= i < addresses.len() && tracee.memory.contains_key(
                    word_address(#[trigger] addresses[i]),
                ) ==> result.contains_key(addresses[i])
        }),
    decreases addresses.len(),
{
    let result = install_run(table, tracee.pid, addresses, exchanges)->0;
    if addresses.len() == 0 {
        assert(exchanges.len() == 0);
    } else {
        let address = addresses[0];
        let (taken, next) = install_step(table, tracee.pid, address, exchanges)->0;
        let later = addresses.skip(1);
        let rest = exchanges.skip(taken);
        lemma_admits_split(tracee, exchanges, taken);
        lemma_frame_kept(tracee, exchanges.take(taken));
        let mid = tracee.after(exchanges.take(taken));
        if table.contains_key(address) {
            assert(exchanges.take(0) =~= Seq::<Exchange>::empty());
            assert(mid == tracee);
        } else {
            lemma_install_step_cases(tracee, table, address, exchanges);
        }
        assert(faithful(next, mid)) by {
            assert forall|a: u64| #[trigger] next.contains_key(a) implies {
                &&& next[a].address == a
                &&& mid.memory.contains_key(word_address(a))
                &&& mid.byte_at(a) == if next[a].enabled {
                    TRAP_BYTE
                } else {
                    next[a].original
                }
            } by {
                if a != address {
                    assert(table.contains_key(a));
                }
            }
        }
        lemma_install_keeps_faith(mid, next, later, rest);
        let then = tracee.after(exchanges);
        assert(then == mid.after(rest));
        assert forall|a: u64| #[trigger] table.contains_key(a) implies result.contains_key(a)
            && result[a] == table[a] by {
            assert(next.contains_key(a));
        }
        assert forall|a: u64| #[trigger] result.contains_key(a) && !table.contains_key(a) implies {
            &&& addresses.contains(a)
            &&& result[a] == (Breakpoint { address: a, original: tracee.byte_at(a), enabled: true })
        } by {
            if next.contains_key(a) {
                assert(a == address);
                assert(addresses[0] == a);
            } else {
                let i = choose|i: int| 0 <= i < later.len() && later[i] == a;
                assert(addresses[i + 1] == a);
            }
        }
        assert forall|b: u64| !(#[trigger] result.contains_key(b)) implies then.byte_at(b)
            == tracee.byte_at(b) by {
            assert(!next.contains_key(b));
        }
        if unrefused(exchanges) {
            assert(unrefused(exchanges.take(taken)));
            assert(unrefused(rest)) by {
                assert forall|i: int| 0 <= i < rest.len() implies !((#[trigger] rest[i]).response
                    is Failed) by {
                    assert(rest[i] == exchanges[i + taken]);
                }
            }
            assert forall|i: int|
                0 <= i < addresses.len() && tracee.memory.contains_key(
                    word_address(#[trigger] addresses[i]),
                ) implies result.contains_key(addresses[i]) by {
                if i == 0 {
                    assert(next.contains_key(address));
                } else {
                    assert(later[i - 1] == addresses[i]);
                }
            }
        }
    }
}

/// The first handling of the stopped test keeps faith: the flags of the
/// table tell the truth of the tracee's memory afterwards as they did
/// before, whatever was refused.
pub proof fn lemma_init_keeps_faith(tracee: Tracee, pre: RunView, post: RunView)
    requires
        init_post(pre, post),
        tracee.pid == pre.current,
        tracee.admits(post.since(pre)),
        faithful(pre.table, tracee),
    ensures
        faithful(post.table, tracee.after(post.since(pre))),
        install_run(
            pre.table,
            pre.current,
            addresses_of(pre.traces),
            post.since(pre).subrange(1, post.since(pre).len() - 1),
        ) == Some(post.table),
        tracee.after(post.since(pre)) == tracee.after(
            post.since(pre).subrange(1, post.since(pre).len() - 1),
        ),
        tracee.admits(post.since(pre).subrange(1, post.since(pre).len() - 1)),
{
    let added = post.since(pre);
    let n = added.len() as int;
    let middle = added.subrange(1, n - 1);
    lemma_admits_split(tracee, added, 1);
    assert(added.take(1) =~= seq![added[0]]);
    lemma_one_exchange(tracee, added[0]);
    assert(tracee.after(added.take(1)) == tracee);
    let tail = added.skip(1);
    lemma_admits_split(tracee, tail, n - 2);
    assert(tail.take(n - 2) =~= middle);
    assert(tail.skip(n - 2) =~= seq![added.last()]);
    let then = tracee.after(middle);
    lemma_one_exchange(then, added.last());
    assert(tracee.after(added) == then);
    lemma_install_keeps_faith(tracee, pre.table, addresses_of(pre.traces), middle);
}

/// The first handling of the stopped test, where nothing is refused: every
/// address of the coverage sink that is mapped in the tracee's memory has
/// its breakpoint, enabled and with its trap in the memory, and no other
/// byte of the memory has changed.
///
/// This holds of a run that begins without breakpoints.
pub proof fn lemma_init_arms_every_address(tracee: Tracee, pre: RunView, post: RunView)
    requires
        init_post(pre, post),
        pre.table == Map::<u64, Breakpoint>::empty(),
        tracee.pid == pre.current,
        tracee.admits(post.since(pre)),
        unrefused(post.since(pre)),
    ensures
        forall|i: int|
            0 <= i < addresses_of(pre.traces).len() && tracee.memory.contains_key(
                word_address(#[trigger] addresses_of(pre.traces)[i]),
            ) ==> post.table.contains_key(addresses_of(pre.traces)[i]),
        forall|a: u64| #[trigger]
            post.table.contains_key(a) ==> {
                &&& addresses_of(pre.traces).contains(a)
                &&& post.table[a] == (Breakpoint {
                    address: a,
                    original: tracee.byte_at(a),
                    enabled: true,
                })
                &&& tracee.after(post.since(pre)).byte_at(a) == TRAP_BYTE
            },
        forall|b: u64|
            !(#[trigger] post.table.contains_key(b)) ==> tracee.after(post.since(pre)).byte_at(b)
                == tracee.byte_at(b),
{
    let added = post.since(pre);
    let middle = added.subrange(1, added.len() - 1);
    lemma_init_keeps_faith(tracee, pre, post);
    assert(unrefused(middle)) by {
        assert forall|i: int| 0 <= i < middle.len() implies !((#[trigger] middle[i]).response
            is Failed) by {
            assert(middle[i] == added[i + 1]);
        }
    }
    lemma_install_keeps_faith(tracee, pre.table, addresses_of(pre.traces), middle);
}

/// The handling of a stop keeps faith: whatever stopped the test and
/// whatever was refused, the flags of the table tell the truth of the
/// tracee's memory afterwards as they did before.
pub proof fn lemma_stop_keeps_faith(
    tracee: Tracee,
    pre: RunView,
    post: RunView,
    next: TestState,
    now: u64,
)
    requires
        stop_post(pre, post, next, now),
        tracee.pid == pre.current,
        tracee.admits(post.since(pre)),
        faithful(pre.table, tracee),
    ensures
        faithful(post.table, tracee.after(post.since(pre))),
{
    let added = post.since(pre);
    let n = added.len() as int;
    match cause_of(pre.wait) {
        StopCause::Unknown => {},
        StopCause::Signal(_) | StopCause::Event | StopCause::Syscall => {
            assert(added =~= seq![added[0]]);
            lemma_one_exchange(tracee, added[0]);
        },
        StopCause::Exec => {
            let planting = added.drop_last();
            lemma_admits_split(tracee, added, n - 1);
            assert(added.take(n - 1) =~= planting);
            assert(added.skip(n - 1) =~= seq![added.last()]);
            lemma_one_exchange(tracee.after(planting), added.last());
            lemma_install_keeps_faith(
                tracee,
                Map::<u64, Breakpoint>::empty(),
                addresses_of(pre.traces),
                planting,
            );
        },
        StopCause::Trap => {
            lemma_admits_split(tracee, added, 1);
            assert(added.take(1) =~= seq![added[0]]);
            lemma_one_exchange(tracee, added[0]);
            assert(tracee.after(added.take(1)) == tracee);
            let rest = added.skip(1);
            match target_of(pre.table, added[0].response) {
                TrapTarget::Hit(bp) => {
                    let end = hit_position(bp, pre.current, rest)->0;
                    lemma_hit_keeps_faith(tracee, bp, rest, end);
                    lemma_frame_kept(tracee, rest);
                    let then = tracee.after(added);
                    assert forall|a: u64| #[trigger] post.table.contains_key(a) implies {
                        &&& post.table[a].address == a
                        &&& then.memory.contains_key(word_address(a))
                        &&& then.byte_at(a) == if post.table[a].enabled {
                            TRAP_BYTE
                        } else {
                            post.table[a].original
                        }
                    } by {
                        if a != bp.address {
                            assert(pre.table.contains_key(a));
                        }
                    }
                },
                TrapTarget::Foreign => {
                    assert(rest =~= seq![added[1]]);
                    lemma_one_exchange(tracee, added[1]);
                },
                TrapTarget::Lost => {
                    assert(rest =~= Seq::<Exchange>::empty());
                },
            }
        },
    }
}

/// The handling of a stop at a breakpoint that resumes the test, as the
/// tracee sees it: the hit is counted once in the coverage sink, the
/// tracee runs on with its memory as it was and the trap in place, and the
/// instruction that the trap had replaced has run exactly once more.
///
/// This holds where the tracee stands one trap's width behind a
/// breakpoint of the table whose trap is in its memory, and the replaced
/// byte is not itself the trap.
pub proof fn lemma_stop_at_breakpoint(
    tracee: Tracee,
    pre: RunView,
    post: RunView,
    next: TestState,
    now: u64,
    address: u64,
)
    requires
        stop_post(pre, post, next, now),
        next is Waiting,
        cause_of(pre.wait) == StopCause::Trap,
        tracee.pid == pre.current,
        tracee.admits(post.since(pre)),
        struck_address(tracee.ip) == Some(address),
        pre.table.contains_key(address),
        pre.table[address].address == address,
        tracee.memory.contains_key(word_address(address)),
        tracee.byte_at(address) == TRAP_BYTE,
        pre.table[address].original != TRAP_BYTE,
    ensures
        next == (TestState::Waiting { start_time: now }),
        post.traces == hit_all(pre.traces, address),
        post.table == pre.table.insert(
            address,
            (Breakpoint { enabled: true, ..pre.table[address] }),
        ),
        post.since(pre).len() == 9,
        unrefused(post.since(pre)),
        tracee.after(post.since(pre)).memory == tracee.memory,
        tracee.after(post.since(pre)).byte_at(address) == TRAP_BYTE,
        tracee.after(post.since(pre)).count(address) == tracee.count(address) + 1,
{
    let added = post.since(pre);
    let bp = pre.table[address];
    lemma_admits_split(tracee, added, 1);
    assert(added.take(1) =~= seq![added[0]]);
    lemma_one_exchange(tracee, added[0]);
    assert(tracee.after(added.take(1)) == tracee);
    assert(added[0].response == Response::Word(tracee.ip));
    let rest = added.skip(1);
    let end = hit_position(bp, pre.current, rest)->0;
    lemma_hit_plants_trap_again(tracee, bp, rest, end);
    assert forall|i: int| 0 <= i < added.len() implies !((#[trigger] added[i]).response
        is Failed) by {
        if i > 0 {
            assert(rest[i - 1] == added[i]);
        }
    }
}

/// A look for news of the test keeps faith: it touches neither the table
/// nor the tracee, whatever the news.
pub proof fn lemma_look_keeps_faith(
    tracee: Tracee,
    pre: RunView,
    post: RunView,
    found: Option<TestState>,
)
    requires
        look_post(pre, post, found),
        faithful(pre.table, tracee),
    ensures
        post.table == pre.table,
        tracee.after(post.since(pre)) == tracee,
        faithful(post.table, tracee.after(post.since(pre))),
{
    let exchange = Exchange {
        pid: pre.current,
        request: Request::Poll,
        response: post.history.last().response,
    };
    assert(post.since(pre) =~= seq![exchange]);
    lemma_one_exchange(tracee, exchange);
}

/// The first stop of a run, where nothing is refused: once the test has
/// appeared and was handled for the first time, every address of the
/// coverage sink that is mapped in the tracee's memory has its breakpoint,
/// enabled and with its trap in the memory; the table holds no other
/// address; and no other byte of the memory has changed.
///
/// This holds of a run whose data had no breakpoints when the test was
/// looked for, as the data of a new machine has none.
pub proof fn lemma_first_stop_arms_every_address(
    tracee: Tracee,
    fresh: RunView,
    seen: RunView,
    post: RunView,
    found: Option<TestState>,
)
    requires
        fresh.table == Map::<u64, Breakpoint>::empty(),
        look_post(fresh, seen, found),
        init_post(seen, post),
        tracee.pid == seen.current,
        tracee.admits(post.since(seen)),
        unrefused(post.since(seen)),
    ensures
        forall|i: int|
            0 <= i < addresses_of(fresh.traces).len() && tracee.memory.contains_key(
                word_address(#[trigger] addresses_of(fresh.traces)[i]),
            ) ==> post.table.contains_key(addresses_of(fresh.traces)[i]),
        forall|a: u64| #[trigger]
            post.table.contains_key(a) ==> {
                &&& addresses_of(fresh.traces).contains(a)
                &&& post.table[a] == (Breakpoint {
                    address: a,
                    original: tracee.byte_at(a),
                    enabled: true,
                })
                &&& tracee.after(post.since(seen)).byte_at(a) == TRAP_BYTE
            },
        forall|b: u64|
            !(#[trigger] post.table.contains_key(b)) ==> tracee.after(post.since(seen)).byte_at(b)
                == tracee.byte_at(b),
{
    lemma_init_arms_every_address(tracee, seen, post);
}

} // verus!
