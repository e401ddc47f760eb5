//! The result bridge: the handoff that applies asynchronous outcomes to one
//! presentation session's state. Every application is gated on the session
//! still being live (teardown invalidates it, later deliveries are silently
//! dropped), and every applied outcome is appended — never overwritten — so
//! interleaved completions are each kept once, in delivery order.

use vstd::prelude::*;

verus! {

/// One entry of a conversation history.
pub struct ChatEntry {
    pub is_user: bool,
    pub text: String,
}

/// The mathematical image of one entry.
#[verifier::ext_equal]
pub struct EntryModel {
    pub is_user: bool,
    pub text: Seq<char>,
}

impl View for ChatEntry {
    type V = EntryModel;

    open spec fn view(&self) -> EntryModel {
        EntryModel { is_user: self.is_user, text: self.text@ }
    }
}

impl Clone for ChatEntry {
    fn clone(&self) -> (r: Self)
        ensures
            r == *self,
    {
        ChatEntry { is_user: self.is_user, text: self.text.clone() }
    }
}

/// The mathematical image of one session's bridge.
#[verifier::ext_equal]
pub struct BridgeModel {
    pub entries: Seq<EntryModel>,
    pub loading: bool,
    pub live: bool,
}

/// The bridge for one presentation session.
pub struct SessionBridge {
    entries: Vec<ChatEntry>,
    loading: bool,
    live: bool,
}

impl View for SessionBridge {
    type V = BridgeModel;

    closed spec fn view(&self) -> BridgeModel {
        BridgeModel {
            entries: self.entries@.map_values(|e: ChatEntry| e@),
            loading: self.loading,
            live: self.live,
        }
    }
}

impl SessionBridge {
    /// A fresh, live session with an empty history and no work pending.
    pub fn new() -> (s: SessionBridge)
        ensures
            s@ == (BridgeModel {
                entries: Seq::<EntryModel>::empty(),
                loading: false,
                live: true,
            }),
    {
        let s = SessionBridge { entries: Vec::new(), loading: false, live: true };
        proof {
            assert(s@.entries =~= Seq::<EntryModel>::empty());
            assert(s@ =~= (BridgeModel {
                entries: Seq::<EntryModel>::empty(),
                loading: false,
                live: true,
            }));
        }
        s
    }

    /// Whether the session is still live.
    pub fn is_live(&self) -> (r: bool)
        ensures
            r == self@.live,
    {
        self.live
    }

    /// Whether asynchronous work is pending.
    pub fn is_loading(&self) -> (r: bool)
        ensures
            r == self@.loading,
    {
        self.loading
    }

    /// How many entries the history holds.
    pub fn len(&self) -> (r: usize)
        ensures
            r == self@.entries.len(),
    {
        self.entries.len()
    }

    /// The history entry at position `i`.
    pub fn entry(&self, i: usize) -> (r: &ChatEntry)
        requires
            i < self@.entries.len(),
        ensures
            r@ == self@.entries[i as int],
    {
        &self.entries[i]
    }

    /// Invalidates the session at teardown: every later application is
    /// dropped.
    pub fn invalidate(&mut self)
        ensures
            final(self)@ == (BridgeModel { live: false, ..old(self)@ }),
    {
        self.live = false;
        proof {
            assert(self@ =~= (BridgeModel { live: false, ..old(self)@ }));
        }
    }

    /// Raises or clears the loading indicator; dropped after teardown.
    pub fn set_loading(&mut self, on: bool) -> (applied: bool)
        ensures
            applied == old(self)@.live,
            old(self)@.live ==> final(self)@ == (BridgeModel { loading: on, ..old(self)@ }),
            !old(self)@.live ==> final(self)@ == old(self)@,
    {
        if self.live {
            self.loading = on;
            proof {
                assert(self@ =~= (BridgeModel { loading: on, ..old(self)@ }));
            }
            true
        } else {
            false
        }
    }

    /// Appends one entry to the history — never overwriting what is there —
    /// if and only if the session is still live.
    pub fn post(&mut self, entry: ChatEntry) -> (applied: bool)
        ensures
            applied == old(self)@.live,
            old(self)@.live ==> final(self)@ == (BridgeModel {
                entries: old(self)@.entries.push(entry@),
                ..old(self)@
            }),
            !old(self)@.live ==> final(self)@ == old(self)@,
    {
        if self.live {
            let ghost entry_model = entry@;
            self.entries.push(entry);
            proof {
                assert(self@.entries =~= old(self)@.entries.push(entry_model));
                assert(self@ =~= (BridgeModel {
                    entries: old(self)@.entries.push(entry_model),
                    ..old(self)@
                }));
            }
            true
        } else {
            false
        }
    }

    /// Submits a user message: appends it and raises the loading indicator
    /// in one synchronous step, before any suspension; dropped after
    /// teardown.
    pub fn submit(&mut self, text: &str) -> (applied: bool)
        ensures
            applied == old(self)@.live,
            old(self)@.live ==> final(self)@ == (BridgeModel {
                entries: old(self)@.entries.push(
                    EntryModel { is_user: true, text: text@ },
                ),
                loading: true,
                ..old(self)@
            }),
            !old(self)@.live ==> final(self)@ == old(self)@,
    {
        if self.live {
            self.entries.push(ChatEntry { is_user: true, text: text.to_owned() });
            self.loading = true;
            proof {
                assert(self@.entries =~= old(self)@.entries.push(
                    EntryModel { is_user: true, text: text@ },
                ));
                assert(self@ =~= (BridgeModel {
                    entries: old(self)@.entries.push(
                        EntryModel { is_user: true, text: text@ },
                    ),
                    loading: true,
                    ..old(self)@
                }));
            }
            true
        } else {
            false
        }
    }

    /// Delivers the one terminal outcome of an asynchronous operation —
    /// success text or a failure's description — appending it and clearing
    /// the loading indicator; dropped after teardown.
    pub fn deliver(&mut self, text: String) -> (applied: bool)
        ensures
            applied == old(self)@.live,
            old(self)@.live ==> final(self)@ == (BridgeModel {
                entries: old(self)@.entries.push(
                    EntryModel { is_user: false, text: text@ },
                ),
                loading: false,
                ..old(self)@
            }),
            !old(self)@.live ==> final(self)@ == old(self)@,
    {
        if self.live {
            let ghost text_model = text@;
            self.entries.push(ChatEntry { is_user: false, text });
            self.loading = false;
            proof {
                assert(self@.entries =~= old(self)@.entries.push(
                    EntryModel { is_user: false, text: text_model },
                ));
                assert(self@ =~= (BridgeModel {
                    entries: old(self)@.entries.push(
                        EntryModel { is_user: false, text: text_model },
                    ),
                    loading: false,
                    ..old(self)@
                }));
            }
            true
        } else {
            false
        }
    }
}

} // verus!
