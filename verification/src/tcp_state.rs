//! What a port remembers of the TCP connections of its guest.

use crate::api::Direction;
use crate::flow_table::after_insert;
use crate::flow_table::after_remove;
use crate::flow_table::hit_slot;
use crate::flow_table::lemma_slot_of;
use crate::flow_table::slot_of;
use crate::flow_table::FlowEntry;
use crate::flow_table::FlowSlot;
use crate::flow_table::FlowState;
use crate::flow_table::FlowTable;
use crate::packet::InnerFlowId;
use crate::tcp::TcpFlags;
use crate::time::Moment;
use vstd::prelude::*;

verus! {

/// After how many idle milliseconds an established connection is forgotten.
pub const TCP_ESTABLISHED_TTL_MS: u64 = 7_200_000;

/// After how many idle milliseconds a connection that is being opened or closed is
/// forgotten.
pub const TCP_TRANSIENT_TTL_MS: u64 = 60_000;

/// The state of a TCP connection, as seen from the guest.
#[derive(Clone, Copy, Debug, PartialEq, Eq, Structural)]
pub enum TcpState {
    /// The guest has sent a SYN.
    SynSent,
    /// The guest has received a SYN.
    SynRcvd,
    /// The connection is open.
    Established,
    /// The guest has sent a FIN.
    FinWait,
    /// The guest has received a FIN.
    CloseWait,
    /// Both sides have sent a FIN; the last acknowledgement is awaited.
    Closing,
}

/// What a port remembers of one TCP connection.
#[derive(Clone, Copy, Debug, PartialEq, Eq, Structural)]
pub struct TcpFlowEntry {
    pub state: TcpState,
}

impl TcpState {
    /// The name of the state.
    pub open spec fn text(self) -> Seq<char> {
        match self {
            TcpState::SynSent => "SYN_SENT"@,
            TcpState::SynRcvd => "SYN_RCVD"@,
            TcpState::Established => "ESTABLISHED"@,
            TcpState::FinWait => "FIN_WAIT"@,
            TcpState::CloseWait => "CLOSE_WAIT"@,
            TcpState::Closing => "CLOSING"@,
        }
    }
}

impl FlowState for TcpFlowEntry {
    open spec fn spec_ttl_ms(&self, table_ttl_ms: u64) -> u64 {
        match self.state {
            TcpState::Established => TCP_ESTABLISHED_TTL_MS,
            _ => TCP_TRANSIENT_TTL_MS,
        }
    }

    open spec fn spec_summary(&self) -> Seq<char> {
        self.state.text()
    }

    fn ttl_ms(&self, table_ttl_ms: u64) -> (r: u64) {
        match self.state {
            TcpState::Established => TCP_ESTABLISHED_TTL_MS,
            _ => TCP_TRANSIENT_TTL_MS,
        }
    }

    fn summary(&self) -> (r: String) {
        match self.state {
            TcpState::SynSent => "SYN_SENT".to_owned(),
            TcpState::SynRcvd => "SYN_RCVD".to_owned(),
            TcpState::Established => "ESTABLISHED".to_owned(),
            TcpState::FinWait => "FIN_WAIT".to_owned(),
            TcpState::CloseWait => "CLOSE_WAIT".to_owned(),
            TcpState::Closing => "CLOSING".to_owned(),
        }
    }
}

/// What a segment means for the connection that it belongs to.
#[derive(Clone, Copy, Debug, PartialEq, Eq, Structural)]
pub enum TcpVerdict {
    /// The connection goes on in this state.
    Keep(TcpState),
    /// The connection is over.
    Close,
    /// The segment does not fit the state of the connection.
    Invalid,
}

/// True when the flag `bit` is set in `flags`.
pub open spec fn spec_has_flag(flags: u8, bit: u8) -> bool {
    flags & bit != 0
}

/// True when the flag `bit` is set in `flags`.
pub fn has_flag(flags: u8, bit: u8) -> (r: bool)
    ensures
        r == spec_has_flag(flags, bit),
{
    flags & bit != 0
}

/// What a segment with the flags `flags` in the direction `dir` means for a connection in
/// the state `state`; no state stands for a connection that the port does not know.
///
/// A reset ends the connection. A connection begins with a SYN without an acknowledgement,
/// in either direction; it is open once the SYN has been answered and the answer
/// acknowledged; a FIN from each side, and one acknowledgement after them, end it.
pub open spec fn spec_tcp_next(state: Option<TcpState>, dir: Direction, flags: u8) -> TcpVerdict {
    let syn = spec_has_flag(flags, TcpFlags::SYN);
    let ack = spec_has_flag(flags, TcpFlags::ACK);
    let fin = spec_has_flag(flags, TcpFlags::FIN);
    let rst = spec_has_flag(flags, TcpFlags::RST);
    if rst {
        TcpVerdict::Close
    } else {
        match state {
            None => if syn && !ack {
                match dir {
                    Direction::Out => TcpVerdict::Keep(TcpState::SynSent),
                    Direction::In => TcpVerdict::Keep(TcpState::SynRcvd),
                }
            } else {
                TcpVerdict::Invalid
            },
            Some(TcpState::SynSent) => match dir {
                Direction::Out => if syn && !ack {
                    TcpVerdict::Keep(TcpState::SynSent)
                } else {
                    TcpVerdict::Invalid
                },
                Direction::In => if syn && ack {
                    TcpVerdict::Keep(TcpState::Established)
                } else if syn {
                    TcpVerdict::Keep(TcpState::SynRcvd)
                } else {
                    TcpVerdict::Invalid
                },
            },
            Some(TcpState::SynRcvd) => if syn {
                match dir {
                    Direction::In => if !ack {
                        TcpVerdict::Keep(TcpState::SynRcvd)
                    } else {
                        TcpVerdict::Invalid
                    },
                    Direction::Out => if ack {
                        TcpVerdict::Keep(TcpState::SynRcvd)
                    } else {
                        TcpVerdict::Invalid
                    },
                }
            } else if !ack {
                TcpVerdict::Invalid
            } else if fin {
                match dir {
                    Direction::Out => TcpVerdict::Keep(TcpState::FinWait),
                    Direction::In => TcpVerdict::Keep(TcpState::CloseWait),
                }
            } else {
                TcpVerdict::Keep(TcpState::Established)
            },
            Some(TcpState::Established) => if fin {
                match dir {
                    Direction::Out => TcpVerdict::Keep(TcpState::FinWait),
                    Direction::In => TcpVerdict::Keep(TcpState::CloseWait),
                }
            } else {
                TcpVerdict::Keep(TcpState::Established)
            },
            Some(TcpState::FinWait) => if fin && dir == Direction::In {
                TcpVerdict::Keep(TcpState::Closing)
            } else {
                TcpVerdict::Keep(TcpState::FinWait)
            },
            Some(TcpState::CloseWait) => if fin && dir == Direction::Out {
                TcpVerdict::Keep(TcpState::Closing)
            } else {
                TcpVerdict::Keep(TcpState::CloseWait)
            },
            Some(TcpState::Closing) => if ack && !fin {
                TcpVerdict::Close
            } else {
                TcpVerdict::Keep(TcpState::Closing)
            },
        }
    }
}

/// What a segment with the flags `flags` in the direction `dir` means for a connection in
/// the state `state`.
pub fn tcp_next(state: Option<TcpState>, dir: Direction, flags: u8) -> (r: TcpVerdict)
    ensures
        r == spec_tcp_next(state, dir, flags),
{
    let syn = has_flag(flags, TcpFlags::SYN);
    let ack = has_flag(flags, TcpFlags::ACK);
    let fin = has_flag(flags, TcpFlags::FIN);
    let rst = has_flag(flags, TcpFlags::RST);
    let out = match dir {
        Direction::Out => true,
        Direction::In => false,
    };
    if rst {
        return TcpVerdict::Close;
    }
    match state {
        None => if syn && !ack {
            if out {
                TcpVerdict::Keep(TcpState::SynSent)
            } else {
                TcpVerdict::Keep(TcpState::SynRcvd)
            }
        } else {
            TcpVerdict::Invalid
        },
        Some(TcpState::SynSent) => if out {
            if syn && !ack {
                TcpVerdict::Keep(TcpState::SynSent)
            } else {
                TcpVerdict::Invalid
            }
        } else if syn && ack {
            TcpVerdict::Keep(TcpState::Established)
        } else if syn {
            TcpVerdict::Keep(TcpState::SynRcvd)
        } else {
            TcpVerdict::Invalid
        },
        Some(TcpState::SynRcvd) => if syn {
            if out == ack {
                TcpVerdict::Keep(TcpState::SynRcvd)
            } else {
                TcpVerdict::Invalid
            }
        } else if !ack {
            TcpVerdict::Invalid
        } else if fin {
            if out {
                TcpVerdict::Keep(TcpState::FinWait)
            } else {
                TcpVerdict::Keep(TcpState::CloseWait)
            }
        } else {
            TcpVerdict::Keep(TcpState::Established)
        },
        Some(TcpState::Established) => if fin {
            if out {
                TcpVerdict::Keep(TcpState::FinWait)
            } else {
                TcpVerdict::Keep(TcpState::CloseWait)
            }
        } else {
            TcpVerdict::Keep(TcpState::Established)
        },
        Some(TcpState::FinWait) => if fin && !out {
            TcpVerdict::Keep(TcpState::Closing)
        } else {
            TcpVerdict::Keep(TcpState::FinWait)
        },
        Some(TcpState::CloseWait) => if fin && out {
            TcpVerdict::Keep(TcpState::Closing)
        } else {
            TcpVerdict::Keep(TcpState::CloseWait)
        },
        Some(TcpState::Closing) => if ack && !fin {
            TcpVerdict::Close
        } else {
            TcpVerdict::Keep(TcpState::Closing)
        },
    }
}

/// The state of the connection `key` in the table `s`, if the table knows it.
pub open spec fn tcp_state_of(s: Seq<FlowSlot<TcpFlowEntry>>, key: InnerFlowId) -> Option<TcpState> {
    if slot_of(s, key) >= 0 {
        Some(s[slot_of(s, key)].entry.value.state)
    } else {
        None
    }
}

/// The verdict on a segment of the connection `key` with the flags `flags` in the
/// direction `dir`, by the table `s`.
pub open spec fn tcp_verdict(s: Seq<FlowSlot<TcpFlowEntry>>, key: InnerFlowId, dir: Direction, flags: u8) -> TcpVerdict {
    spec_tcp_next(tcp_state_of(s, key), dir, flags)
}

/// The table `s` after a segment of the connection `key` at `now`: a connection that goes
/// on counts a hit and has its new state, a new connection is installed, a connection
/// that is over is taken out, and a segment that does not fit changes nothing.
pub open spec fn tcp_after(
    s: Seq<FlowSlot<TcpFlowEntry>>,
    limit: u32,
    key: InnerFlowId,
    dir: Direction,
    flags: u8,
    now: Moment,
) -> Seq<FlowSlot<TcpFlowEntry>> {
    match tcp_verdict(s, key, dir, flags) {
        TcpVerdict::Keep(st) => {
            let i = slot_of(s, key);
            if i >= 0 {
                s.update(
                    i,
                    FlowSlot {
                        key,
                        entry: FlowEntry { value: TcpFlowEntry { state: st }, ..hit_slot(s[i], now).entry },
                    },
                )
            } else {
                after_insert(s, limit, key, TcpFlowEntry { state: st }, now)
            }
        },
        TcpVerdict::Close => after_remove(s, key),
        TcpVerdict::Invalid => s,
    }
}

/// Follows a segment of the connection `key` with the flags `flags` in the direction `dir`
/// at `now`, and says what the segment means for the connection.
pub fn tcp_track(table: &mut FlowTable<TcpFlowEntry>, key: InnerFlowId, dir: Direction, flags: u8, now: Moment) -> (r:
    TcpVerdict)
    requires
        old(table).wf(),
    ensures
        final(table).wf(),
        final(table).limit == old(table).limit,
        final(table).ttl_ms == old(table).ttl_ms,
        r == tcp_verdict(old(table)@, key, dir, flags),
        final(table)@ == tcp_after(old(table)@, old(table).limit, key, dir, flags, now),
{
    let found = table.find(&key);
    let state = match found {
        Some(i) => Some(table.slots[i].entry.value.state),
        None => None,
    };
    let verdict = tcp_next(state, dir, flags);
    proof {
        lemma_slot_of(table@, key);
    }
    match verdict {
        TcpVerdict::Keep(st) => {
            match found {
                Some(i) => {
                    let _ = table.get(&key, now);
                    table.slots[i].entry.value = TcpFlowEntry { state: st };
                    assert(table@ =~= tcp_after(old(table)@, old(table).limit, key, dir, flags, now));
                },
                None => {
                    table.insert(key, TcpFlowEntry { state: st }, now);
                },
            }
        },
        TcpVerdict::Close => {
            let _ = table.remove(&key);
        },
        TcpVerdict::Invalid => {},
    }
    verdict
}

} // verus!
