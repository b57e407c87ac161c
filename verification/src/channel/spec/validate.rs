//! Lowering a parsed spec to a runtime channel.

use vstd::prelude::*;
use crate::channel::role::ChannelCommon;
use crate::channel::spec::error::{ChannelSpecError, SpecErrV};
use crate::channel::spec::types::ChannelSpec;
use crate::channel::transform::{clamp_int, Channel, MAX_DELAY_US};
use crate::fxp::Micro;
use crate::text::{int_decimal, push_i64, push_str};

verus! {

/// The message refusing a non-zero tick offset.
pub open spec fn offset_msg(n: i32) -> Seq<char> {
    "non-zero offset ("@ + int_decimal(n as int)
        + " ticks) requires tempo-dependent conversion (not yet implemented)"@
}

impl ChannelSpec {
    /// The runtime channel of a spec: a MIDI channel with the spec's
    /// grid, swing and bar multiplier, the delay clamped to
    /// `[0, 300 ms]` and no offset. A non-zero tick offset is refused
    /// (it needs a tempo to convert).
    pub fn into_channel(self) -> (r: Result<Channel, ChannelSpecError>)
        ensures
            self.offset_ticks != 0 ==> r is Err && r->Err_0@ == SpecErrV::BadValue(
                "offset"@,
                offset_msg(self.offset_ticks),
            ),
            self.offset_ticks == 0 ==> r == Ok::<Channel, ChannelSpecError>(
                Channel::Midi {
                    common: ChannelCommon {
                        divider: self.grid,
                        shuffle: self.swing,
                        delay: Micro(clamp_int(self.delay.0 as int, 0, MAX_DELAY_US as int) as i64),
                        offset: Micro(0),
                        bar_multiplier: self.bars,
                    },
                    role: self.mode,
                },
            ),
    {
        let raw = self.delay.0;
        let d = if raw < 0 {
            0
        } else if raw > MAX_DELAY_US {
            MAX_DELAY_US
        } else {
            raw
        };
        if self.offset_ticks != 0 {
            let mut m = String::new();
            push_str(&mut m, "non-zero offset (");
            push_i64(&mut m, self.offset_ticks as i64);
            push_str(&mut m, " ticks) requires tempo-dependent conversion (not yet implemented)");
            assert(m@ =~= offset_msg(self.offset_ticks));
            return Err(ChannelSpecError::BadValue("offset", m));
        }
        let common = ChannelCommon {
            divider: self.grid,
            shuffle: self.swing,
            delay: Micro(d),
            offset: Micro(0),
            bar_multiplier: self.bars,
        };
        Ok(Channel::Midi { common, role: self.mode })
    }
}

} // verus!
