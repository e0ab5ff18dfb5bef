//! The throttled sink: a rate-limited, drop-tolerant channel for
//! diagnostic text.
//!
//! Producers never block: when the mailbox is full the message is dropped
//! and a skip counter grows; the next message that does get through is
//! prefixed with the number of messages lost since the last delivery. A
//! ghost log of emit outcomes makes that accounting a provable statement.

use vstd::prelude::*;
use vstd::string::StringExecFns;
use std::io::Write;

use crate::mailbox::{bounded_string_channel, string_sender_is_full, try_send_string, SendAttempt};
use crate::render::{spec_decimal, u64_to_string};

verus! {

/// Capacity of the diagnostic mailbox.
pub const PRINTER_MAILBOX_CAPACITY: usize = 2;

/// One emit call's outcome, recorded in the ghost log of the sink.
pub ghost enum EmitEvent {
    /// The text was placed in the mailbox.
    Delivered { text: Seq<char> },
    /// The mailbox was full; the message was dropped and counted.
    Dropped,
    /// The consumer is gone; the message was discarded without counting.
    ConsumerGone,
}

/// A producer handle on the diagnostic mailbox.
pub struct ThrottledPrinter {
    pub milliseconds: u32,
    pub tx: crossbeam_channel::Sender<String>,
    pub skipped: u32,
    pub disconnected: bool,
    pub log: Ghost<Seq<EmitEvent>>,
}

/// The text that is delivered for `message` when `skipped` messages were
/// dropped since the last delivery.
pub open spec fn spec_render(skipped: u32, message: Seq<char>) -> Seq<char> {
    if skipped == 0 {
        message
    } else {
        "Skipped "@ + spec_decimal(skipped as nat) + " messages...\n"@ + message
    }
}

/// Increment that stops at the largest representable count.
pub open spec fn sat_inc(n: u32) -> u32 {
    if n < u32::MAX {
        (n + 1) as u32
    } else {
        n
    }
}

/// How one `print` call moves the sink from `pre` to `post` when its
/// outcome is `e`.
pub open spec fn print_step(
    pre: ThrottledPrinter,
    post: ThrottledPrinter,
    message: Seq<char>,
    e: EmitEvent,
) -> bool {
    &&& post.tx == pre.tx
    &&& post.milliseconds == pre.milliseconds
    &&& post.log@ == pre.log@.push(e)
    &&& match e {
        EmitEvent::Delivered { text } => {
            &&& !pre.disconnected
            &&& !post.disconnected
            &&& text == spec_render(pre.skipped, message)
            &&& post.skipped == 0
        },
        EmitEvent::Dropped => {
            &&& !pre.disconnected
            &&& !post.disconnected
            &&& post.skipped == sat_inc(pre.skipped)
        },
        EmitEvent::ConsumerGone => {
            &&& post.disconnected
            &&& post.skipped == pre.skipped
        },
    }
}

/// One `print` call moves the sink from `pre` to `post` under some
/// outcome.
pub open spec fn print_transition(pre: ThrottledPrinter, post: ThrottledPrinter, message: Seq<char>) -> bool {
    exists|e: EmitEvent| print_step(pre, post, message, e)
}

/// The number of messages dropped after the most recent delivery.
pub open spec fn drops_since_last_delivery(log: Seq<EmitEvent>) -> nat
    decreases log.len(),
{
    if log.len() == 0 {
        0
    } else {
        match log.last() {
            EmitEvent::Delivered { text } => 0nat,
            EmitEvent::Dropped => drops_since_last_delivery(log.drop_last()) + 1,
            EmitEvent::ConsumerGone => drops_since_last_delivery(log.drop_last()),
        }
    }
}

/// Relies on std::io::Stdout and writeln: prints one diagnostic line. The
/// sink's consumer is gone, so this is the only remaining output path.
#[verifier::external_body]
fn report_disconnected() {
    let _ = writeln!(std::io::stdout(), "PrinterDisconnected");
}

impl ThrottledPrinter {
    /// A fresh sink and the receiving end of its mailbox; the caller gives
    /// the receiver to a dedicated consumer.
    pub fn new(milliseconds: u32) -> (r: (ThrottledPrinter, crossbeam_channel::Receiver<String>))
        ensures
            r.0.milliseconds == milliseconds,
            r.0.skipped == 0,
            !r.0.disconnected,
            r.0.log@ == Seq::<EmitEvent>::empty(),
    {
        let (tx, rx) = bounded_string_channel(PRINTER_MAILBOX_CAPACITY);
        (
            ThrottledPrinter {
                milliseconds,
                tx,
                skipped: 0,
                disconnected: false,
                log: Ghost(Seq::empty()),
            },
            rx,
        )
    }

    /// Emit one line of diagnostic text without ever blocking: deliver it,
    /// prefixed with the pending skip count, or drop it and grow the
    /// count. After the consumer is first seen to be gone, report that
    /// once and discard everything that follows.
    pub fn print(&mut self, message: &str)
        ensures
            print_transition(*old(self), *final(self), message@),
    {
        if self.disconnected {
            proof {
                self.log@ = self.log@.push(EmitEvent::ConsumerGone);
            }
            assert(print_step(*old(self), *self, message@, EmitEvent::ConsumerGone));
            return ;
        }
        if string_sender_is_full(&self.tx) {
            self.skipped = if self.skipped < u32::MAX {
                self.skipped + 1
            } else {
                self.skipped
            };
            proof {
                self.log@ = self.log@.push(EmitEvent::Dropped);
            }
            assert(print_step(*old(self), *self, message@, EmitEvent::Dropped));
            return ;
        }
        let text: String = if self.skipped > 0 {
            let mut s = String::from_str("Skipped ");
            let count = u64_to_string(self.skipped as u64);
            s.append(count.as_str());
            s.append(" messages...\n");
            s.append(message);
            s
        } else {
            message.to_owned()
        };
        let ghost sent_text: Seq<char> = text@;
        assert(sent_text == spec_render(old(self).skipped, message@));
        match try_send_string(&self.tx, text) {
            SendAttempt::Sent => {
                self.skipped = 0;
                proof {
                    self.log@ = self.log@.push(EmitEvent::Delivered { text: sent_text });
                }
                assert(print_step(
                    *old(self),
                    *self,
                    message@,
                    EmitEvent::Delivered { text: sent_text },
                ));
            },
            SendAttempt::Full => {
                self.skipped = if self.skipped < u32::MAX {
                    self.skipped + 1
                } else {
                    self.skipped
                };
                proof {
                    self.log@ = self.log@.push(EmitEvent::Dropped);
                }
                assert(print_step(*old(self), *self, message@, EmitEvent::Dropped));
            },
            SendAttempt::Disconnected => {
                report_disconnected();
                self.disconnected = true;
                proof {
                    self.log@ = self.log@.push(EmitEvent::ConsumerGone);
                }
                assert(print_step(*old(self), *self, message@, EmitEvent::ConsumerGone));
            },
        }
    }
}

/// Law: over any run of emits, the skip counter equals the number of
/// messages dropped since the last successful delivery, and a delivered
/// line carries exactly that count in its prefix. A fresh sink starts with
/// an empty log and a zero counter, and every `print` preserves the
/// equality; it is stated short of the counter's saturation point.
pub proof fn lemma_skip_counter_counts_drops(
    pre: ThrottledPrinter,
    post: ThrottledPrinter,
    message: Seq<char>,
    e: EmitEvent,
)
    requires
        pre.skipped == drops_since_last_delivery(pre.log@),
        drops_since_last_delivery(pre.log@) < u32::MAX,
        print_step(pre, post, message, e),
    ensures
        post.skipped == drops_since_last_delivery(post.log@),
        e matches EmitEvent::Delivered { text } ==> text == spec_render(
            drops_since_last_delivery(pre.log@) as u32,
            message,
        ),
{
    assert(post.log@.drop_last() =~= pre.log@);
    assert(post.log@.last() == e);
}

} // verus!
