//! The control bridge between the soft (async) side and the audio
//! thread: command metadata and admission outcomes, the fixed-size
//! texts that travel with commands, the tempo hand-off slot (its state
//! machine and its atomic encoding), the audio-side consumer, and how
//! drained commands are applied to a [`Playhead`].

pub mod slot;
pub mod shared;
pub mod steps;

use vstd::prelude::*;
use vstd::string::StringSliceAdditionalSpecFns;
use vstd::utf8::{decode_utf8, encode_utf8, encode_utf8_decode_utf8, encode_utf8_valid_utf8, valid_utf8};
use crate::channel::spec::parser::eq_lit;
use crate::fxp::Tempo;
use crate::text::chars_of;
use crate::out_midi::MidiRtByte;
use crate::transport::{stage_spec, Playhead, PlayheadV, TransportCommandApply};

verus! {

/// Most UTF-8 bytes a [`SourceId`] holds.
pub const MAX_SOURCE_ID_LEN: usize = 64;

/// Most UTF-8 bytes a [`CoalesceKey`] holds.
pub const MAX_COALESCE_KEY_LEN: usize = 64;

/// Ordered commands that must not silently coalesce.
#[derive(Copy, Clone, Debug, Eq, PartialEq)]
pub enum ControlCommand {
    ChannelConfigure { channel: u32 },
    Start,
    Stop,
    Locate { tick: u32 },
}

/// Semantic id assigned before a command enters the bridge.
#[derive(Copy, Clone, Debug, Default, Eq, PartialEq, Ord, PartialOrd, Hash)]
pub struct CommandId(pub u64);

impl CommandId {
    /// The raw id.
    pub fn get(self) -> (r: u64)
        ensures
            r == self.0,
    {
        self.0
    }
}

/// `std::str::from_utf8`: `Ok` exactly when the bytes are valid UTF-8,
/// and then a string whose UTF-8 form is those bytes.
pub assume_specification[ core::str::from_utf8 ](v: &[u8]) -> (r: Result<&str, core::str::Utf8Error>)
    ensures
        r is Ok <==> valid_utf8(v@),
        r is Ok ==> r->Ok_0.spec_bytes() == v@,
;

/// The error of `std::str::from_utf8`.
#[verifier::external_type_specification]
#[verifier::external_body]
pub struct ExUtf8Error(core::str::Utf8Error);

/// Whether `s` fits fixed storage: its UTF-8 form has at most 64 bytes.
pub open spec fn fits_fixed(s: Seq<char>) -> bool {
    encode_utf8(s).len() <= 64
}

/// Fixed storage is consistent: `len` valid UTF-8 bytes, zeros after.
pub open spec fn fixed_ok(bytes: Seq<u8>, len: u8) -> bool {
    &&& bytes.len() == 64
    &&& len <= 64
    &&& valid_utf8(bytes.subrange(0, len as int))
    &&& forall|i: int| len <= i < 64 ==> bytes[i] == 0u8
}

/// The text that fixed storage holds.
pub open spec fn fixed_text(bytes: Seq<u8>, len: u8) -> Seq<char> {
    decode_utf8(bytes.subrange(0, len as int))
}

/// Copy `value` into zero-padded fixed storage; `None` when its UTF-8
/// form is longer than the storage.
fn fixed_string(value: &str) -> (r: Option<([u8; 64], u8)>)
    ensures
        r is Some <==> fits_fixed(value@),
        match r {
            Some((bytes, len)) => fixed_ok(bytes@, len) && fixed_text(bytes@, len) == value@,
            None => true,
        },
{
    let b = value.as_bytes();
    proof {
        encode_utf8_valid_utf8(value@);
        encode_utf8_decode_utf8(value@);
    }
    if b.len() > 64 {
        return None;
    }
    let mut bytes: [u8; 64] = [0u8; 64];
    let mut i: usize = 0;
    while i < b.len()
        invariant
            i <= b@.len() <= 64,
            bytes@.len() == 64,
            forall|j: int| 0 <= j < i ==> bytes@[j] == b@[j],
            forall|j: int| i <= j < 64 ==> bytes@[j] == 0u8,
        decreases b.len() - i,
    {
        bytes[i] = b[i];
        i += 1;
    }
    assert(bytes@.subrange(0, b@.len() as int) =~= b@);
    Some((bytes, b.len() as u8))
}

/// The fixed storage as a string.
fn fixed_as_str(bytes: &[u8; 64], len: u8) -> (s: &str)
    requires
        fixed_ok(bytes@, len),
    ensures
        s@ == fixed_text(bytes@, len),
{
    let prefix = vstd::slice::slice_subrange(bytes.as_slice(), 0, len as usize);
    match core::str::from_utf8(prefix) {
        Ok(s) => {
            proof {
                encode_utf8_decode_utf8(s@);
            }
            s
        },
        Err(_) => {
            assert(false);
            ""
        },
    }
}

/// Fixed-capacity source id carried through the command envelope.
#[derive(Copy, Clone, Debug, PartialEq, Eq, Hash)]
pub struct SourceId {
    bytes: [u8; MAX_SOURCE_ID_LEN],
    len: u8,
}

impl View for SourceId {
    type V = Seq<char>;

    closed spec fn view(&self) -> Seq<char> {
        fixed_text(self.bytes@, self.len)
    }
}

impl SourceId {
    #[verifier::type_invariant]
    spec fn inv(self) -> bool {
        fixed_ok(self.bytes@, self.len)
    }

    /// The id `value`; `None` when its UTF-8 form exceeds 64 bytes.
    pub fn new(value: &str) -> (r: Option<SourceId>)
        ensures
            r is Some <==> fits_fixed(value@),
            r is Some ==> r->0@ == value@,
    {
        match fixed_string(value) {
            Some((bytes, len)) => Some(SourceId { bytes, len }),
            None => None,
        }
    }

    /// The id as text.
    pub fn as_str(&self) -> (s: &str)
        ensures
            s@ == self@,
    {
        proof {
            use_type_invariant(self);
        }
        fixed_as_str(&self.bytes, self.len)
    }
}

/// A short ASCII text fits fixed storage.
pub proof fn lemma_ascii_fits(s: Seq<char>)
    requires
        vstd::utf8::is_ascii_chars(s),
        s.len() <= 64,
    ensures
        fits_fixed(s),
{
    vstd::utf8::is_ascii_chars_encode_utf8(s);
}

impl Default for SourceId {
    /// The id of commands the driver issues itself, `agogo.driver`.
    fn default() -> (r: SourceId)
        ensures
            r@ == "agogo.driver"@,
    {
        proof {
            reveal_strlit("agogo.driver");
            lemma_ascii_fits("agogo.driver"@);
        }
        match SourceId::new("agogo.driver") {
            Some(id) => id,
            None => {
                assert(false);
                SourceId::new("").unwrap()
            },
        }
    }
}

/// Optional coalescing key; only last-value controls carry one.
#[derive(Copy, Clone, Debug, PartialEq, Eq, Hash)]
pub struct CoalesceKey {
    bytes: [u8; MAX_COALESCE_KEY_LEN],
    len: u8,
}

impl View for CoalesceKey {
    type V = Seq<char>;

    closed spec fn view(&self) -> Seq<char> {
        fixed_text(self.bytes@, self.len)
    }
}

impl CoalesceKey {
    #[verifier::type_invariant]
    spec fn inv(self) -> bool {
        fixed_ok(self.bytes@, self.len)
    }

    /// The key `value`; `None` when its UTF-8 form exceeds 64 bytes.
    pub fn new(value: &str) -> (r: Option<CoalesceKey>)
        ensures
            r is Some <==> fits_fixed(value@),
            r is Some ==> r->0@ == value@,
    {
        match fixed_string(value) {
            Some((bytes, len)) => Some(CoalesceKey { bytes, len }),
            None => None,
        }
    }

    /// The key of tempo controls, `tempo`.
    pub fn tempo() -> (r: CoalesceKey)
        ensures
            r@ == "tempo"@,
    {
        proof {
            reveal_strlit("tempo");
            lemma_ascii_fits("tempo"@);
        }
        match CoalesceKey::new("tempo") {
            Some(k) => k,
            None => {
                assert(false);
                CoalesceKey::new("").unwrap()
            },
        }
    }

    /// The key as text.
    pub fn as_str(&self) -> (s: &str)
        ensures
            s@ == self@,
    {
        proof {
            use_type_invariant(self);
        }
        fixed_as_str(&self.bytes, self.len)
    }

    /// Whether this is the tempo key.
    pub fn is_tempo(&self) -> (r: bool)
        ensures
            r == (self@ == "tempo"@),
    {
        let v = chars_of(self.as_str());
        eq_lit(&v, "tempo")
    }
}

/// Time domain attached to a command deadline.
#[derive(Copy, Clone, Debug, Eq, PartialEq, Structural)]
pub enum CommandTimeDomain {
    RtBuffer,
    HostTime,
    Tick,
    Link,
    Unknown,
}

/// The wire name of a time domain.
pub open spec fn domain_name(d: CommandTimeDomain) -> Seq<char> {
    match d {
        CommandTimeDomain::RtBuffer => "rt_buffer"@,
        CommandTimeDomain::HostTime => "host_time"@,
        CommandTimeDomain::Tick => "tick"@,
        CommandTimeDomain::Link => "link"@,
        CommandTimeDomain::Unknown => "unknown"@,
    }
}

/// The time domain a wire name denotes: a known name gives its domain,
/// any other text gives `Unknown`.
pub open spec fn domain_of(s: Seq<char>) -> CommandTimeDomain {
    if s == "rt_buffer"@ {
        CommandTimeDomain::RtBuffer
    } else if s == "host_time"@ {
        CommandTimeDomain::HostTime
    } else if s == "tick"@ {
        CommandTimeDomain::Tick
    } else if s == "link"@ {
        CommandTimeDomain::Link
    } else {
        CommandTimeDomain::Unknown
    }
}

impl CommandTimeDomain {
    /// The domain that `value` names (`Unknown` for anything else).
    pub fn parse(value: &str) -> (d: CommandTimeDomain)
        ensures
            d == domain_of(value@),
    {
        let v = chars_of(value);
        if eq_lit(&v, "rt_buffer") {
            CommandTimeDomain::RtBuffer
        } else if eq_lit(&v, "host_time") {
            CommandTimeDomain::HostTime
        } else if eq_lit(&v, "tick") {
            CommandTimeDomain::Tick
        } else if eq_lit(&v, "link") {
            CommandTimeDomain::Link
        } else {
            CommandTimeDomain::Unknown
        }
    }

    /// The wire name.
    pub fn as_str(self) -> (s: &'static str)
        ensures
            s@ == domain_name(self),
    {
        match self {
            CommandTimeDomain::RtBuffer => "rt_buffer",
            CommandTimeDomain::HostTime => "host_time",
            CommandTimeDomain::Tick => "tick",
            CommandTimeDomain::Link => "link",
            CommandTimeDomain::Unknown => "unknown",
        }
    }
}

/// Parsing a time domain's wire name gives the domain back.
pub proof fn lemma_domain_name_round_trip(d: CommandTimeDomain)
    ensures
        domain_of(domain_name(d)) == d,
{
    reveal_strlit("rt_buffer");
    reveal_strlit("host_time");
    reveal_strlit("tick");
    reveal_strlit("link");
    reveal_strlit("unknown");
    assert("rt_buffer"@ != "host_time"@ && "rt_buffer"@ != "tick"@ && "rt_buffer"@ != "link"@
        && "rt_buffer"@ != "unknown"@) by {
        assert("rt_buffer"@[0] != "host_time"@[0]);
    }
    assert("host_time"@ != "tick"@ && "host_time"@ != "link"@ && "host_time"@ != "unknown"@) by {
        assert("host_time"@[0] != "tick"@[0]);
    }
    assert("tick"@ != "link"@ && "tick"@ != "unknown"@) by {
        assert("tick"@[0] != "link"@[0]);
    }
    assert("link"@ != "unknown"@) by {
        assert("link"@[0] != "unknown"@[0]);
    }
}

/// Deadline of a command; only buffer deadlines are accepted.
#[derive(Copy, Clone, Debug, Eq, PartialEq, Structural)]
pub struct CommandDeadline {
    pub time_domain: CommandTimeDomain,
    pub buffer: u64,
}

impl CommandDeadline {
    /// A deadline at audio buffer `buffer`.
    pub fn rt_buffer(buffer: u64) -> (d: CommandDeadline)
        ensures
            d == (CommandDeadline { time_domain: CommandTimeDomain::RtBuffer, buffer }),
    {
        CommandDeadline { time_domain: CommandTimeDomain::RtBuffer, buffer }
    }
}

/// The buffer after `epoch`, saturating at the last one.
pub open spec fn next_epoch(epoch: u64) -> u64 {
    if epoch == u64::MAX {
        u64::MAX
    } else {
        (epoch + 1) as u64
    }
}

/// Metadata required before any command may reach the audio side.
#[derive(Copy, Clone, Debug, Eq, PartialEq)]
pub struct AdmissionMetadata {
    pub command_id: CommandId,
    pub source_id: SourceId,
    pub deadline: CommandDeadline,
    pub coalesce_key: Option<CoalesceKey>,
}

impl AdmissionMetadata {
    /// Metadata due at the buffer after `current_epoch` (saturating),
    /// without a coalescing key.
    pub fn next_buffer(command_id: CommandId, source_id: SourceId, current_epoch: u64) -> (m:
        AdmissionMetadata)
        ensures
            m.command_id == command_id,
            m.source_id == source_id,
            m.deadline == (CommandDeadline {
                time_domain: CommandTimeDomain::RtBuffer,
                buffer: next_epoch(current_epoch),
            }),
            m.coalesce_key is None,
    {
        AdmissionMetadata {
            command_id,
            source_id,
            deadline: CommandDeadline::rt_buffer(current_epoch.saturating_add(1)),
            coalesce_key: None,
        }
    }

    /// As [`next_buffer`](Self::next_buffer), keyed as a tempo control.
    pub fn tempo(command_id: CommandId, source_id: SourceId, current_epoch: u64) -> (m:
        AdmissionMetadata)
        ensures
            m.command_id == command_id,
            m.source_id == source_id,
            m.deadline == (CommandDeadline {
                time_domain: CommandTimeDomain::RtBuffer,
                buffer: next_epoch(current_epoch),
            }),
            m.coalesce_key is Some && m.coalesce_key->0@ == "tempo"@,
    {
        AdmissionMetadata {
            coalesce_key: Some(CoalesceKey::tempo()),
            ..AdmissionMetadata::next_buffer(command_id, source_id, current_epoch)
        }
    }
}

/// The payload of the ordered command queue.
#[derive(Copy, Clone, Debug, Eq, PartialEq)]
pub struct CommandEnvelope {
    pub metadata: AdmissionMetadata,
    pub command: ControlCommand,
}

/// How an admission attempt ended.
#[derive(Copy, Clone, Debug, Eq, PartialEq, Structural)]
pub enum AdmissionStatus {
    Accepted,
    Rejected,
    Late,
}

/// The wire name of an admission status.
pub open spec fn status_name(s: AdmissionStatus) -> Seq<char> {
    match s {
        AdmissionStatus::Accepted => "accepted"@,
        AdmissionStatus::Rejected => "rejected"@,
        AdmissionStatus::Late => "late"@,
    }
}

impl AdmissionStatus {
    /// The wire name.
    pub fn as_str(self) -> (s: &'static str)
        ensures
            s@ == status_name(self),
    {
        match self {
            AdmissionStatus::Accepted => "accepted",
            AdmissionStatus::Rejected => "rejected",
            AdmissionStatus::Late => "late",
        }
    }
}

/// Why an admission was refused.
#[derive(Copy, Clone, Debug, Eq, PartialEq, Structural)]
pub enum AdmissionRejectReason {
    QueueFull,
    QueuePoisoned,
    LateDeadline,
    UnsupportedTimeDomain,
    UnsupportedCommandClass,
}

/// The wire name of a reject reason.
pub open spec fn reason_name(r: AdmissionRejectReason) -> Seq<char> {
    match r {
        AdmissionRejectReason::QueueFull => "queue_full"@,
        AdmissionRejectReason::QueuePoisoned => "queue_poisoned"@,
        AdmissionRejectReason::LateDeadline => "late_deadline"@,
        AdmissionRejectReason::UnsupportedTimeDomain => "unsupported_time_domain"@,
        AdmissionRejectReason::UnsupportedCommandClass => "unsupported_command_class"@,
    }
}

impl AdmissionRejectReason {
    /// The wire name.
    pub fn as_str(self) -> (s: &'static str)
        ensures
            s@ == reason_name(self),
    {
        match self {
            AdmissionRejectReason::QueueFull => "queue_full",
            AdmissionRejectReason::QueuePoisoned => "queue_poisoned",
            AdmissionRejectReason::LateDeadline => "late_deadline",
            AdmissionRejectReason::UnsupportedTimeDomain => "unsupported_time_domain",
            AdmissionRejectReason::UnsupportedCommandClass => "unsupported_command_class",
        }
    }
}

/// The result of one admission attempt.
#[derive(Copy, Clone, Debug, Eq, PartialEq)]
pub struct AdmissionOutcome {
    pub status: AdmissionStatus,
    pub metadata: AdmissionMetadata,
    pub reason: Option<AdmissionRejectReason>,
}

impl AdmissionOutcome {
    /// Accepted, with no reason.
    pub fn accepted(metadata: AdmissionMetadata) -> (o: AdmissionOutcome)
        ensures
            o == (AdmissionOutcome { status: AdmissionStatus::Accepted, metadata, reason: None }),
    {
        AdmissionOutcome { status: AdmissionStatus::Accepted, metadata, reason: None }
    }

    /// Rejected for `reason`.
    pub fn rejected(metadata: AdmissionMetadata, reason: AdmissionRejectReason) -> (o:
        AdmissionOutcome)
        ensures
            o == (AdmissionOutcome {
                status: AdmissionStatus::Rejected,
                metadata,
                reason: Some(reason),
            }),
    {
        AdmissionOutcome { status: AdmissionStatus::Rejected, metadata, reason: Some(reason) }
    }

    /// Late: the deadline has passed.
    pub fn late(metadata: AdmissionMetadata) -> (o: AdmissionOutcome)
        ensures
            o == (AdmissionOutcome {
                status: AdmissionStatus::Late,
                metadata,
                reason: Some(AdmissionRejectReason::LateDeadline),
            }),
    {
        AdmissionOutcome {
            status: AdmissionStatus::Late,
            metadata,
            reason: Some(AdmissionRejectReason::LateDeadline),
        }
    }

    /// Whether the status is `Accepted`.
    pub fn is_accepted(self) -> (r: bool)
        ensures
            r == (self.status == AdmissionStatus::Accepted),
    {
        match self.status {
            AdmissionStatus::Accepted => true,
            _ => false,
        }
    }
}

/// What the audio side takes from the ordered queue at a buffer.
#[derive(Copy, Clone, Debug, Eq, PartialEq)]
pub enum RtCommandDrain {
    Command(CommandEnvelope),
    MissedDeadline(CommandEnvelope),
}

/// Per-buffer scalar snapshot read by the audio callback.
#[derive(Copy, Clone, Debug, Eq, PartialEq)]
pub struct ControlParams {
    pub tempo: Tempo,
    pub buffer_epoch: u64,
}

/// The result of applying bridge state to a playhead at one buffer.
#[derive(Copy, Clone, Debug, Eq, PartialEq)]
pub struct CommandApplyReport {
    pub params: ControlParams,
    pub tempo_updated: bool,
    pub applied_commands: u32,
    pub missed_deadlines: u32,
    pub unsupported_commands: u32,
    pub transport_queue_full: u32,
    pub teardown_rejected_commands: u32,
}

/// Errors of the compatibility push path.
#[derive(Copy, Clone, Debug, Eq, PartialEq, Structural)]
pub enum BridgeError {
    QueueFull,
    QueuePoisoned,
    Late,
    UnsupportedTimeDomain,
    UnsupportedCommandClass,
}

/// The message of a bridge error.
pub open spec fn bridge_error_text(e: BridgeError) -> Seq<char> {
    match e {
        BridgeError::QueueFull => "agogo control queue is full"@,
        BridgeError::QueuePoisoned => "agogo control queue lock is poisoned"@,
        BridgeError::Late => "agogo control command missed its deadline"@,
        BridgeError::UnsupportedTimeDomain => "agogo control command uses an unsupported time domain"@,
        BridgeError::UnsupportedCommandClass => "agogo control command class is unsupported"@,
    }
}

impl BridgeError {
    /// The human-readable message.
    pub fn message(self) -> (s: &'static str)
        ensures
            s@ == bridge_error_text(self),
    {
        match self {
            BridgeError::QueueFull => "agogo control queue is full",
            BridgeError::QueuePoisoned => "agogo control queue lock is poisoned",
            BridgeError::Late => "agogo control command missed its deadline",
            BridgeError::UnsupportedTimeDomain => "agogo control command uses an unsupported time domain",
            BridgeError::UnsupportedCommandClass => "agogo control command class is unsupported",
        }
    }
}

/// The error of a reject reason.
pub open spec fn reason_error(r: AdmissionRejectReason) -> BridgeError {
    match r {
        AdmissionRejectReason::QueueFull => BridgeError::QueueFull,
        AdmissionRejectReason::QueuePoisoned => BridgeError::QueuePoisoned,
        AdmissionRejectReason::LateDeadline => BridgeError::Late,
        AdmissionRejectReason::UnsupportedTimeDomain => BridgeError::UnsupportedTimeDomain,
        AdmissionRejectReason::UnsupportedCommandClass => BridgeError::UnsupportedCommandClass,
    }
}

/// An admission outcome as the compatibility `Result`: `Ok` for an
/// accepted outcome without a reason, else the reason's error (an
/// outcome with neither counts as an unsupported command class).
pub fn bridge_result_for_outcome(outcome: AdmissionOutcome) -> (r: Result<(), BridgeError>)
    ensures
        r == match outcome.reason {
            None => if outcome.status == AdmissionStatus::Accepted {
                Ok(())
            } else {
                Err(BridgeError::UnsupportedCommandClass)
            },
            Some(reason) => Err(reason_error(reason)),
        },
{
    match outcome.reason {
        None => if outcome.is_accepted() {
            Ok(())
        } else {
            Err(BridgeError::UnsupportedCommandClass)
        },
        Some(AdmissionRejectReason::QueueFull) => Err(BridgeError::QueueFull),
        Some(AdmissionRejectReason::QueuePoisoned) => Err(BridgeError::QueuePoisoned),
        Some(AdmissionRejectReason::LateDeadline) => Err(BridgeError::Late),
        Some(AdmissionRejectReason::UnsupportedTimeDomain) => Err(BridgeError::UnsupportedTimeDomain),
        Some(AdmissionRejectReason::UnsupportedCommandClass) => Err(BridgeError::UnsupportedCommandClass),
    }
}

/// The refusal owed before a command is queued: a deadline outside
/// the buffer domain is rejected, one at or before the current buffer
/// is late; `None` when the command may proceed.
pub open spec fn admission_refusal(m: AdmissionMetadata, current_epoch: u64) -> Option<
    AdmissionOutcome,
> {
    if m.deadline.time_domain != CommandTimeDomain::RtBuffer {
        Some(
            AdmissionOutcome {
                status: AdmissionStatus::Rejected,
                metadata: m,
                reason: Some(AdmissionRejectReason::UnsupportedTimeDomain),
            },
        )
    } else if m.deadline.buffer <= current_epoch {
        Some(
            AdmissionOutcome {
                status: AdmissionStatus::Late,
                metadata: m,
                reason: Some(AdmissionRejectReason::LateDeadline),
            },
        )
    } else {
        None
    }
}

/// The refusal of `metadata` at buffer `current_epoch`, if any.
pub fn reject_if_not_admissible(metadata: AdmissionMetadata, current_epoch: u64) -> (r: Option<
    AdmissionOutcome,
>)
    ensures
        r == admission_refusal(metadata, current_epoch),
{
    match metadata.deadline.time_domain {
        CommandTimeDomain::RtBuffer => {},
        _ => {
            return Some(
                AdmissionOutcome::rejected(metadata, AdmissionRejectReason::UnsupportedTimeDomain),
            );
        },
    }
    if metadata.deadline.buffer <= current_epoch {
        return Some(AdmissionOutcome::late(metadata));
    }
    None
}

/// The refusal of an ordered command: as [`admission_refusal`], then a
/// coalescing key is an unsupported command class (ordered commands
/// never coalesce).
pub open spec fn ordered_refusal(m: AdmissionMetadata, current_epoch: u64) -> Option<
    AdmissionOutcome,
> {
    match admission_refusal(m, current_epoch) {
        Some(o) => Some(o),
        None => if m.coalesce_key is Some {
            Some(
                AdmissionOutcome {
                    status: AdmissionStatus::Rejected,
                    metadata: m,
                    reason: Some(AdmissionRejectReason::UnsupportedCommandClass),
                },
            )
        } else {
            None
        },
    }
}

/// The refusal of an ordered command at buffer `current_epoch`, if any.
pub fn ordered_precheck(metadata: AdmissionMetadata, current_epoch: u64) -> (r: Option<
    AdmissionOutcome,
>)
    ensures
        r == ordered_refusal(metadata, current_epoch),
{
    match reject_if_not_admissible(metadata, current_epoch) {
        Some(o) => Some(o),
        None => if metadata.coalesce_key.is_some() {
            Some(
                AdmissionOutcome::rejected(metadata, AdmissionRejectReason::UnsupportedCommandClass),
            )
        } else {
            None
        },
    }
}

/// Whether metadata carries the tempo coalescing key.
pub open spec fn has_tempo_key(m: AdmissionMetadata) -> bool {
    match m.coalesce_key {
        Some(k) => k@ == "tempo"@,
        None => false,
    }
}

/// A tempo control must carry the tempo key: anything else is an
/// unsupported command class.
pub fn tempo_key_check(metadata: AdmissionMetadata) -> (r: Option<AdmissionOutcome>)
    ensures
        has_tempo_key(metadata) ==> r is None,
        !has_tempo_key(metadata) ==> r == Some(
            AdmissionOutcome {
                status: AdmissionStatus::Rejected,
                metadata,
                reason: Some(AdmissionRejectReason::UnsupportedCommandClass),
            },
        ),
{
    let keyed = match metadata.coalesce_key {
        Some(k) => k.is_tempo(),
        None => false,
    };
    if keyed {
        None
    } else {
        Some(AdmissionOutcome::rejected(metadata, AdmissionRejectReason::UnsupportedCommandClass))
    }
}

/// Whether a published tempo must be settled with the audio side: its
/// deadline is already at or before the current buffer.
pub fn tempo_needs_settle(metadata: AdmissionMetadata, current_epoch: u64) -> (r: bool)
    ensures
        r == (metadata.deadline.buffer <= current_epoch),
{
    metadata.deadline.buffer <= current_epoch
}

/// The answer to a tempo admission once its publish was attempted:
/// late when the publish was refused, late when the tempo had to be
/// settled and the audio side did not take it, accepted otherwise.
pub open spec fn tempo_admission_spec(
    metadata: AdmissionMetadata,
    published: bool,
    needs_settle: bool,
    settled: bool,
) -> AdmissionOutcome {
    if !published || (needs_settle && !settled) {
        AdmissionOutcome {
            status: AdmissionStatus::Late,
            metadata,
            reason: Some(AdmissionRejectReason::LateDeadline),
        }
    } else {
        AdmissionOutcome { status: AdmissionStatus::Accepted, metadata, reason: None }
    }
}

/// The answer to a tempo admission once its publish was attempted.
pub fn tempo_admission_outcome(
    metadata: AdmissionMetadata,
    published: bool,
    needs_settle: bool,
    settled: bool,
) -> (r: AdmissionOutcome)
    ensures
        r == tempo_admission_spec(metadata, published, needs_settle, settled),
{
    if !published || (needs_settle && !settled) {
        AdmissionOutcome::late(metadata)
    } else {
        AdmissionOutcome::accepted(metadata)
    }
}

/// Where an envelope stands against the current buffer.
pub open spec fn classify_drain(e: CommandEnvelope, current_epoch: u64) -> Option<RtCommandDrain> {
    if e.metadata.deadline.buffer > current_epoch {
        None
    } else if e.metadata.deadline.buffer < current_epoch {
        Some(RtCommandDrain::MissedDeadline(e))
    } else {
        Some(RtCommandDrain::Command(e))
    }
}

/// Classify a popped envelope: due now (`Command`), past due
/// (`MissedDeadline`), or not yet due (`None`: keep it for later).
pub fn drain_for_epoch(envelope: CommandEnvelope, current_epoch: u64) -> (r: Option<
    RtCommandDrain,
>)
    ensures
        r == classify_drain(envelope, current_epoch),
{
    let deadline = envelope.metadata.deadline.buffer;
    if deadline > current_epoch {
        None
    } else if deadline < current_epoch {
        Some(RtCommandDrain::MissedDeadline(envelope))
    } else {
        Some(RtCommandDrain::Command(envelope))
    }
}

/// `n + 1`, saturating at `u32::MAX`.
pub open spec fn sat_inc(n: u32) -> u32 {
    if n == u32::MAX {
        u32::MAX
    } else {
        (n + 1) as u32
    }
}

/// The report after one transport command's result is counted.
pub open spec fn record_spec(r: CommandApplyReport, result: TransportCommandApply) -> CommandApplyReport {
    match result {
        TransportCommandApply::Applied => CommandApplyReport {
            applied_commands: sat_inc(r.applied_commands),
            ..r
        },
        TransportCommandApply::UnsupportedPolicy => CommandApplyReport {
            unsupported_commands: sat_inc(r.unsupported_commands),
            ..r
        },
        TransportCommandApply::QueueFull => CommandApplyReport {
            transport_queue_full: sat_inc(r.transport_queue_full),
            ..r
        },
        TransportCommandApply::TeardownRequested => CommandApplyReport {
            teardown_rejected_commands: sat_inc(r.teardown_rejected_commands),
            ..r
        },
    }
}

impl CommandApplyReport {
    /// Count the result of staging a transport command.
    pub fn record_transport_apply(&mut self, result: TransportCommandApply)
        ensures
            *final(self) == record_spec(*old(self), result),
    {
        match result {
            TransportCommandApply::Applied => {
                self.applied_commands = self.applied_commands.saturating_add(1);
            },
            TransportCommandApply::UnsupportedPolicy => {
                self.unsupported_commands = self.unsupported_commands.saturating_add(1);
            },
            TransportCommandApply::QueueFull => {
                self.transport_queue_full = self.transport_queue_full.saturating_add(1);
            },
            TransportCommandApply::TeardownRequested => {
                self.teardown_rejected_commands = self.teardown_rejected_commands.saturating_add(1);
            },
        }
    }
}

/// The report of a buffer whose bridge snapshot is `params`, before
/// any command: the playhead takes the snapshot's tempo.
pub fn begin_apply(playhead: &mut Playhead, params: ControlParams) -> (report: CommandApplyReport)
    requires
        old(playhead).wf(),
        params.tempo.0 > 0,
    ensures
        final(playhead).wf(),
        final(playhead)@.stc.bpm_of() == params.tempo.0,
        final(playhead)@.stc.sr_of() == old(playhead)@.stc.sr_of(),
        final(playhead)@.stc.ppqn_of() == old(playhead)@.stc.ppqn_of(),
        final(playhead)@ == (PlayheadV { stc: final(playhead)@.stc, ..old(playhead)@ }),
        report == (CommandApplyReport {
            params,
            tempo_updated: old(playhead)@.stc.bpm_of() != params.tempo.0,
            applied_commands: 0,
            missed_deadlines: 0,
            unsupported_commands: 0,
            transport_queue_full: 0,
            teardown_rejected_commands: 0,
        }),
{
    let tempo_updated = playhead.apply_tempo(params.tempo);
    CommandApplyReport {
        params,
        tempo_updated,
        applied_commands: 0,
        missed_deadlines: 0,
        unsupported_commands: 0,
        transport_queue_full: 0,
        teardown_rejected_commands: 0,
    }
}

/// Apply one drained command to the playhead and count it: a missed
/// deadline is only counted; Start and Stop are staged on the playhead
/// and their result counted; other commands are unsupported here.
pub fn apply_drain(report: &mut CommandApplyReport, playhead: &mut Playhead, drain: RtCommandDrain)
    requires
        old(playhead).wf(),
    ensures
        final(playhead).wf(),
        match drain {
            RtCommandDrain::MissedDeadline(_) => *final(report) == (CommandApplyReport {
                missed_deadlines: sat_inc(old(report).missed_deadlines),
                ..*old(report)
            }) && final(playhead)@ == old(playhead)@,
            RtCommandDrain::Command(e) => match e.command {
                ControlCommand::Start => transport_applied(
                    *old(report),
                    old(playhead)@,
                    *final(report),
                    final(playhead)@,
                    MidiRtByte::Start,
                ),
                ControlCommand::Stop => transport_applied(
                    *old(report),
                    old(playhead)@,
                    *final(report),
                    final(playhead)@,
                    MidiRtByte::Stop,
                ),
                _ => *final(report) == (CommandApplyReport {
                    unsupported_commands: sat_inc(old(report).unsupported_commands),
                    ..*old(report)
                }) && final(playhead)@ == old(playhead)@,
            },
        },
{
    match drain {
        RtCommandDrain::MissedDeadline(_) => {
            report.missed_deadlines = report.missed_deadlines.saturating_add(1);
        },
        RtCommandDrain::Command(envelope) => match envelope.command {
            ControlCommand::Start => {
                let r = playhead.apply_transport_start();
                report.record_transport_apply(r);
            },
            ControlCommand::Stop => {
                let r = playhead.apply_transport_stop();
                report.record_transport_apply(r);
            },
            _ => {
                report.unsupported_commands = report.unsupported_commands.saturating_add(1);
            },
        },
    }
}

/// A staged transport command: either the stop latch refused it
/// (counted, playhead unchanged) or it was staged as
/// [`stage_spec`] says and its result counted.
pub open spec fn transport_applied(
    r0: CommandApplyReport,
    p0: PlayheadV,
    r1: CommandApplyReport,
    p1: PlayheadV,
    byte: MidiRtByte,
) -> bool {
    ||| r1 == record_spec(r0, TransportCommandApply::TeardownRequested) && p1 == p0
    ||| {
        let (res, p) = stage_spec(p0, byte);
        r1 == record_spec(r0, res) && p1 == p
    }
}

} // verus!
