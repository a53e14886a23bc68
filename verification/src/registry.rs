//! The connection registry and the dispatch rules over it.
//!
//! The registry is the single authority over who is connected, keyed by the
//! peer's address string. All its operations are decisions: each one
//! returns the writes it calls for as plain values, one frame per target
//! peer, and the caller owns the sockets and performs them. Membership is
//! mutated only through these operations, so no entry is ever shared.

use crate::message::Cmd;
use crate::message::InfoKind;
use crate::message::MsgModel;
use crate::message::ParsedMsg;
use crate::message::SerializedMessage;
use crate::message::spec_frame;
use crate::text::lemma_dec_digits_len_u64;
use crate::text::lemma_encode_utf8_len;
use crate::text::spec_dec_digits;
use crate::text::str_eq;
use crate::text::u64_to_dec_string;
use crate::wire::spec_u32_to_be_bytes;
use vstd::prelude::*;
use vstd::string::StringExecFns;
use vstd::utf8::encode_utf8;

verus! {

/// The longest peer address string the registry accepts, in characters.
/// Socket address strings are far shorter; the bound keeps every prefixed
/// broadcast line within a frame's 32-bit length field.
pub const MAX_PEER_ADDR_CHARS: usize = 64;

/// The longest text the registry broadcasts, in characters, for the same
/// reason.
pub const MAX_BROADCAST_CHARS: usize = 1000000000;

/// One write the registry calls for: one frame for one peer.
pub struct Outgoing {
    /// The peer to write to, by its address string.
    pub dest: String,
    /// The frame to write.
    pub frame: SerializedMessage,
}

/// A decoded message tagged with the address of the peer it came from.
pub struct ConnMsg {
    /// The peer the message came from.
    pub addr: String,
    /// The message.
    pub msg: ParsedMsg,
}

/// The line a broadcast delivers to `peer`: the sender's own copy reads
/// `You: ...`, every other copy is prefixed with the sender's address.
pub open spec fn spec_broadcast_line(peer: Seq<char>, origin: Seq<char>, txt: Seq<char>) -> Seq<
    char,
> {
    (if peer == origin {
        "You"@
    } else {
        origin
    }) + ": "@ + txt
}

/// The notice sent to a peer whose announced frame was over the limit.
pub open spec fn spec_too_long_text(max_msg_len: nat) -> Seq<char> {
    "SERVER.INFO: Your message is too long. Maximum allowed lenght in bytes is "@
        + spec_dec_digits(max_msg_len)
}

/// The notice sent to a peer refused because the registry is full.
pub open spec fn spec_server_full_text(max_connections: nat) -> Seq<char> {
    "SERVER.INFO: Server has reached max number of connections "@ + spec_dec_digits(
        max_connections,
    ) + ". Refusing the connection."@
}

/// The help text sent in answer to `/help`.
pub open spec fn spec_help_text() -> Seq<char> {
    "1. /help -> Get this message\n    2. /count -> Current number of connectet users"@
}

/// The registry of connected peers.
pub struct Registry {
    peers: Vec<String>,
    max_connections: usize,
    max_msg_len: usize,
}

impl Registry {
    /// The addresses of the registered peers, in registration order.
    pub closed spec fn spec_peers(&self) -> Seq<Seq<char>> {
        self.peers.deep_view()
    }

    /// The capacity bound this registry was built with.
    pub closed spec fn spec_max_connections(&self) -> usize {
        self.max_connections
    }

    /// The frame-size limit this registry quotes in too-long notices.
    pub closed spec fn spec_max_msg_len(&self) -> usize {
        self.max_msg_len
    }

    /// Whether a peer with this address is registered.
    pub open spec fn spec_contains(&self, addr: Seq<char>) -> bool {
        self.spec_peers().contains(addr)
    }

    /// Well-formedness: no two entries share an address, addresses are
    /// short enough for broadcast lines to fit a frame, and the count stays
    /// under the capacity bound, which itself fits the user-count field.
    pub open spec fn wf(&self) -> bool {
        &&& forall|i: int, j: int|
            0 <= i < j < self.spec_peers().len() ==> self.spec_peers()[i] != self.spec_peers()[j]
        &&& forall|i: int|
            0 <= i < self.spec_peers().len() ==> (#[trigger] self.spec_peers()[i]).len()
                <= MAX_PEER_ADDR_CHARS
        &&& self.spec_peers().len() < self.spec_max_connections()
        &&& self.spec_max_connections() <= u32::MAX
    }

    /// An empty registry with the given capacity bound and frame-size
    /// limit.
    pub fn new(max_connections: usize, max_msg_len: usize) -> (r: Self)
        requires
            1 <= max_connections <= u32::MAX,
        ensures
            r.wf(),
            r.spec_peers() == Seq::<Seq<char>>::empty(),
            r.spec_max_connections() == max_connections,
            r.spec_max_msg_len() == max_msg_len,
    {
        let r = Registry { peers: Vec::new(), max_connections, max_msg_len };
        proof {
            assert(r.spec_peers() =~= Seq::<Seq<char>>::empty());
        }
        r
    }

    /// The number of registered peers.
    pub fn len(&self) -> (n: usize)
        ensures
            n == self.spec_peers().len(),
    {
        self.peers.len()
    }

    /// Whether a peer with this address is registered.
    pub fn contains(&self, addr: &str) -> (r: bool)
        ensures
            r == self.spec_contains(addr@),
    {
        let mut i: usize = 0;
        while i < self.peers.len()
            invariant
                i <= self.peers@.len(),
                forall|j: int| 0 <= j < i ==> self.spec_peers()[j] != addr@,
            decreases self.peers@.len() - i,
        {
            if str_eq(self.peers[i].as_str(), addr) {
                proof {
                    assert(self.spec_peers()[i as int] == addr@);
                }
                return true;
            }
            i = i + 1;
        }
        proof {
            assert(!self.spec_peers().contains(addr@));
        }
        false
    }

    /// Registers a new peer. When that makes the count reach the capacity
    /// bound, the newest peer is immediately refused again: membership is
    /// left as it was and a server-full notice for that peer is returned.
    pub fn register(&mut self, addr: String) -> (r: Option<Outgoing>)
        requires
            old(self).wf(),
            !old(self).spec_contains(addr@),
            addr@.len() <= MAX_PEER_ADDR_CHARS,
        ensures
            final(self).wf(),
            final(self).spec_max_connections() == old(self).spec_max_connections(),
            final(self).spec_max_msg_len() == old(self).spec_max_msg_len(),
            old(self).spec_peers().len() + 1 >= old(self).spec_max_connections() ==> ({
                &&& final(self).spec_peers() == old(self).spec_peers()
                &&& r matches Some(out) && out.dest@ == addr@ && out.frame@ == spec_frame(
                    0,
                    encode_utf8(
                        spec_server_full_text(old(self).spec_max_connections() as nat),
                    ),
                )
            }),
            old(self).spec_peers().len() + 1 < old(self).spec_max_connections() ==> ({
                &&& final(self).spec_peers() == old(self).spec_peers().push(addr@)
                &&& r is None
            }),
    {
        let ghost prev = self.spec_peers();
        self.peers.push(addr);
        proof {
            assert(self.spec_peers() =~= prev.push(self.peers@.last()@));
        }
        if self.peers.len() >= self.max_connections {
            let evicted = self.peers.pop().unwrap();
            proof {
                assert(self.spec_peers() =~= prev);
            }
            let frame = self.server_full_frame();
            Some(Outgoing { dest: evicted, frame })
        } else {
            None
        }
    }

    /// The server-full notice as a text frame.
    fn server_full_frame(&self) -> (frame: SerializedMessage)
        requires
            self.spec_max_connections() <= u32::MAX,
        ensures
            frame@ == spec_frame(
                0,
                encode_utf8(spec_server_full_text(self.spec_max_connections() as nat)),
            ),
    {
        let digits = u64_to_dec_string(self.max_connections as u64);
        let mut text = String::from_str(
            "SERVER.INFO: Server has reached max number of connections ",
        );
        text.append(digits.as_str());
        text.append(". Refusing the connection.");
        proof {
            reveal_strlit("SERVER.INFO: Server has reached max number of connections ");
            reveal_strlit(". Refusing the connection.");
            lemma_dec_digits_len_u64(self.max_connections as u64);
            lemma_encode_utf8_len(text@);
        }
        SerializedMessage::from_string(text.as_str())
    }

    /// Removes the peer with this address, if present; does nothing
    /// otherwise. Other peers keep their order.
    pub fn unregister(&mut self, addr: &str)
        requires
            old(self).wf(),
        ensures
            final(self).wf(),
            final(self).spec_max_connections() == old(self).spec_max_connections(),
            final(self).spec_max_msg_len() == old(self).spec_max_msg_len(),
            !old(self).spec_contains(addr@) ==> final(self).spec_peers() == old(self).spec_peers(),
            old(self).spec_contains(addr@) ==> exists|i: int|
                0 <= i < old(self).spec_peers().len() && old(self).spec_peers()[i] == addr@ && final(self).spec_peers() == old(self).spec_peers().remove(i),
    {
        let _ = self.remove_peer(addr);
    }

    /// Removes the peer with this address and reports whether it was there.
    fn remove_peer(&mut self, addr: &str) -> (found: bool)
        requires
            old(self).wf(),
        ensures
            final(self).wf(),
            final(self).spec_max_connections() == old(self).spec_max_connections(),
            final(self).spec_max_msg_len() == old(self).spec_max_msg_len(),
            found == old(self).spec_contains(addr@),
            !found ==> final(self).spec_peers() == old(self).spec_peers(),
            found ==> exists|i: int|
                0 <= i < old(self).spec_peers().len() && old(self).spec_peers()[i] == addr@ && final(self).spec_peers() == old(self).spec_peers().remove(i),
    {
        let ghost prev = self.spec_peers();
        let mut i: usize = 0;
        while i < self.peers.len()
            invariant
                *self == *old(self),
                old(self).wf(),
                i <= self.peers@.len(),
                self.spec_peers() == prev,
                forall|j: int| 0 <= j < i ==> self.spec_peers()[j] != addr@,
            decreases self.peers@.len() - i,
        {
            if str_eq(self.peers[i].as_str(), addr) {
                proof {
                    assert(prev[i as int] == addr@);
                }
                self.peers.remove(i);
                proof {
                    assert(self.spec_peers() =~= prev.remove(i as int));
                    prev.remove_ensures(i as int);
                    assert forall|a: int, b: int|
                        0 <= a < b < self.spec_peers().len() implies self.spec_peers()[a]
                        != self.spec_peers()[b] by {
                        assert(self.spec_peers()[a] == if a < i as int {
                            prev[a]
                        } else {
                            prev[a + 1]
                        });
                        assert(self.spec_peers()[b] == if b < i as int {
                            prev[b]
                        } else {
                            prev[b + 1]
                        });
                    }
                    assert forall|a: int| 0 <= a < self.spec_peers().len() implies (
                    #[trigger] self.spec_peers()[a]).len() <= MAX_PEER_ADDR_CHARS by {
                        assert(self.spec_peers()[a] == if a < i as int {
                            prev[a]
                        } else {
                            prev[a + 1]
                        });
                    }
                }
                return true;
            }
            i = i + 1;
        }
        proof {
            assert(!prev.contains(addr@));
        }
        false
    }

    /// One outgoing text frame per registered peer, in registration order:
    /// the sender's copy is prefixed `You: `, all other copies with the
    /// sender's address.
    pub fn broadcast(&self, txt: &str, origin: &str) -> (outs: Vec<Outgoing>)
        requires
            self.wf(),
            txt@.len() <= MAX_BROADCAST_CHARS,
            origin@.len() <= MAX_PEER_ADDR_CHARS,
        ensures
            outs@.len() == self.spec_peers().len(),
            forall|i: int|
                0 <= i < outs@.len() ==> (#[trigger] outs@[i]).dest@ == self.spec_peers()[i]
                    && outs@[i].frame@ == spec_frame(
                    0,
                    encode_utf8(spec_broadcast_line(self.spec_peers()[i], origin@, txt@)),
                ),
    {
        let mut outs: Vec<Outgoing> = Vec::new();
        let mut i: usize = 0;
        while i < self.peers.len()
            invariant
                self.wf(),
                txt@.len() <= MAX_BROADCAST_CHARS,
                origin@.len() <= MAX_PEER_ADDR_CHARS,
                i <= self.peers@.len(),
                outs@.len() == i,
                forall|j: int|
                    0 <= j < i ==> (#[trigger] outs@[j]).dest@ == self.spec_peers()[j]
                        && outs@[j].frame@ == spec_frame(
                        0,
                        encode_utf8(spec_broadcast_line(self.spec_peers()[j], origin@, txt@)),
                    ),
            decreases self.peers@.len() - i,
        {
            let peer = &self.peers[i];
            let prefix = if str_eq(peer.as_str(), origin) {
                String::from_str("You")
            } else {
                String::from_str(origin)
            };
            let line = prefix.concat(": ").concat(txt);
            proof {
                reveal_strlit("You");
                reveal_strlit(": ");
                assert(line@ =~= spec_broadcast_line(self.spec_peers()[i as int], origin@, txt@));
                lemma_encode_utf8_len(line@);
            }
            let frame = SerializedMessage::from_string(line.as_str());
            outs.push(Outgoing { dest: peer.clone(), frame });
            i = i + 1;
        }
        outs
    }

    /// The current peer count as a user-count frame for the asking peer,
    /// when it is registered; nothing otherwise.
    pub fn reply_user_count(&self, addr: &str) -> (r: Option<Outgoing>)
        requires
            self.wf(),
        ensures
            self.spec_contains(addr@) ==> (r matches Some(out) && out.dest@ == addr@
                && out.frame@ == spec_frame(
                1,
                spec_u32_to_be_bytes(self.spec_peers().len() as u32),
            )),
            !self.spec_contains(addr@) ==> r is None,
    {
        if self.contains(addr) {
            let n = self.peers.len() as u32;
            Some(
                Outgoing {
                    dest: String::from_str(addr),
                    frame: SerializedMessage::from_user_count(n),
                },
            )
        } else {
            None
        }
    }

    /// The fixed help text as a help frame for the asking peer, when it is
    /// registered; nothing otherwise.
    pub fn reply_help(&self, addr: &str) -> (r: Option<Outgoing>)
        requires
            self.wf(),
        ensures
            self.spec_contains(addr@) ==> (r matches Some(out) && out.dest@ == addr@
                && out.frame@ == spec_frame(2, encode_utf8(spec_help_text()))),
            !self.spec_contains(addr@) ==> r is None,
    {
        if self.contains(addr) {
            let text = "1. /help -> Get this message\n    2. /count -> Current number of connectet users";
            proof {
                reveal_strlit(
                    "1. /help -> Get this message\n    2. /count -> Current number of connectet users",
                );
                lemma_encode_utf8_len(text@);
            }
            Some(
                Outgoing {
                    dest: String::from_str(addr),
                    frame: SerializedMessage::from_help_string(text),
                },
            )
        } else {
            None
        }
    }

    /// Answers a server notice for a peer. A too-long notice leaves
    /// membership alone; a server-full notice removes the peer as its
    /// connection is torn down. Either notice goes out only when the peer
    /// is registered.
    pub fn notify_info(&mut self, addr: &str, kind: InfoKind) -> (r: Option<Outgoing>)
        requires
            old(self).wf(),
        ensures
            final(self).wf(),
            final(self).spec_max_connections() == old(self).spec_max_connections(),
            final(self).spec_max_msg_len() == old(self).spec_max_msg_len(),
            kind is MessageTooLong ==> final(self).spec_peers() == old(self).spec_peers(),
            kind is MessageTooLong && old(self).spec_contains(addr@) ==> (r matches Some(out)
                && out.dest@ == addr@ && out.frame@ == spec_frame(
                0,
                encode_utf8(spec_too_long_text(old(self).spec_max_msg_len() as nat)),
            )),
            kind is MessageTooLong && !old(self).spec_contains(addr@) ==> r is None,
            kind is ServerFull && !old(self).spec_contains(addr@) ==> final(self).spec_peers()
                == old(self).spec_peers() && r is None,
            kind is ServerFull && old(self).spec_contains(addr@) ==> (exists|i: int|
                0 <= i < old(self).spec_peers().len() && old(self).spec_peers()[i] == addr@ && final(self).spec_peers() == old(self).spec_peers().remove(i)) && (r matches Some(out)
                && out.dest@ == addr@ && out.frame@ == spec_frame(
                0,
                encode_utf8(spec_server_full_text(old(self).spec_max_connections() as nat)),
            )),
    {
        match kind {
            InfoKind::MessageTooLong => {
                if self.contains(addr) {
                    let digits = u64_to_dec_string(self.max_msg_len as u64);
                    let mut text = String::from_str(
                        "SERVER.INFO: Your message is too long. Maximum allowed lenght in bytes is ",
                    );
                    text.append(digits.as_str());
                    proof {
                        reveal_strlit(
                            "SERVER.INFO: Your message is too long. Maximum allowed lenght in bytes is ",
                        );
                        lemma_dec_digits_len_u64(self.max_msg_len as u64);
                        lemma_encode_utf8_len(text@);
                    }
                    let frame = SerializedMessage::from_string(text.as_str());
                    Some(Outgoing { dest: String::from_str(addr), frame })
                } else {
                    None
                }
            },
            InfoKind::ServerFull => {
                let found = self.remove_peer(addr);
                if found {
                    let frame = self.server_full_frame();
                    Some(Outgoing { dest: String::from_str(addr), frame })
                } else {
                    None
                }
            },
        }
    }

    /// Routes one decoded message: a text is broadcast, a command is
    /// answered to its sender alone, a notice is delivered, and a
    /// user-count or help frame arriving from a peer is a protocol
    /// violation ignored without reply.
    pub fn handle_message(&mut self, conn_msg: ConnMsg) -> (outs: Vec<Outgoing>)
        requires
            old(self).wf(),
            conn_msg.msg@ matches MsgModel::Text(t) ==> t.len() <= MAX_BROADCAST_CHARS,
            conn_msg.addr@.len() <= MAX_PEER_ADDR_CHARS,
        ensures
            final(self).wf(),
            final(self).spec_max_connections() == old(self).spec_max_connections(),
            final(self).spec_max_msg_len() == old(self).spec_max_msg_len(),
            (conn_msg.msg@ is UserCount || conn_msg.msg@ is Help) ==> final(self).spec_peers()
                == old(self).spec_peers() && outs@.len() == 0,
            conn_msg.msg@ == MsgModel::Command(Cmd::UserCount) ==> final(self).spec_peers() == old(self).spec_peers() && (if old(self).spec_contains(conn_msg.addr@) {
                outs@.len() == 1 && outs@[0].dest@ == conn_msg.addr@ && outs@[0].frame@
                    == spec_frame(
                    1,
                    spec_u32_to_be_bytes(old(self).spec_peers().len() as u32),
                )
            } else {
                outs@.len() == 0
            }),
            conn_msg.msg@ == MsgModel::Command(Cmd::Help) ==> final(self).spec_peers() == old(self).spec_peers() && (if old(self).spec_contains(conn_msg.addr@) {
                outs@.len() == 1 && outs@[0].dest@ == conn_msg.addr@ && outs@[0].frame@
                    == spec_frame(2, encode_utf8(spec_help_text()))
            } else {
                outs@.len() == 0
            }),
            conn_msg.msg@ matches MsgModel::Text(t) ==> final(self).spec_peers() == old(self).spec_peers() && outs@.len() == old(self).spec_peers().len() && (forall|i: int|
                0 <= i < outs@.len() ==> (#[trigger] outs@[i]).dest@ == old(self).spec_peers()[i]
                    && outs@[i].frame@ == spec_frame(
                    0,
                    encode_utf8(
                        spec_broadcast_line(old(self).spec_peers()[i], conn_msg.addr@, t),
                    ),
                )),
            conn_msg.msg@ == MsgModel::Info(InfoKind::MessageTooLong) ==> final(self).spec_peers()
                == old(self).spec_peers() && (if old(self).spec_contains(conn_msg.addr@) {
                outs@.len() == 1 && outs@[0].dest@ == conn_msg.addr@ && outs@[0].frame@
                    == spec_frame(
                    0,
                    encode_utf8(spec_too_long_text(old(self).spec_max_msg_len() as nat)),
                )
            } else {
                outs@.len() == 0
            }),
            conn_msg.msg@ == MsgModel::Info(InfoKind::ServerFull) ==> (if old(self).spec_contains(
                conn_msg.addr@,
            ) {
                (exists|i: int|
                    0 <= i < old(self).spec_peers().len() && old(self).spec_peers()[i]
                        == conn_msg.addr@ && final(self).spec_peers() == old(self).spec_peers().remove(i)) && outs@.len() == 1 && outs@[0].dest@
                    == conn_msg.addr@ && outs@[0].frame@ == spec_frame(
                    0,
                    encode_utf8(spec_server_full_text(old(self).spec_max_connections() as nat)),
                )
            } else {
                final(self).spec_peers() == old(self).spec_peers() && outs@.len() == 0
            }),
    {
        let ConnMsg { addr, msg } = conn_msg;
        match msg {
            ParsedMsg::UserCount(_) => Vec::new(),
            ParsedMsg::Help(_) => Vec::new(),
            ParsedMsg::Command(Cmd::UserCount) => option_to_vec(
                self.reply_user_count(addr.as_str()),
            ),
            ParsedMsg::Command(Cmd::Help) => option_to_vec(self.reply_help(addr.as_str())),
            ParsedMsg::Text(txt) => self.broadcast(txt.as_str(), addr.as_str()),
            ParsedMsg::Info(kind) => option_to_vec(self.notify_info(addr.as_str(), kind)),
        }
    }
}

/// Zero or one writes, as a list.
fn option_to_vec(r: Option<Outgoing>) -> (outs: Vec<Outgoing>)
    ensures
        r matches Some(out) ==> outs@.len() == 1 && outs@[0] == out,
        r is None ==> outs@.len() == 0,
{
    let mut outs: Vec<Outgoing> = Vec::new();
    match r {
        Some(out) => {
            outs.push(out);
        },
        None => {},
    }
    outs
}

} // verus!
