//! Telemetry that is gathered while no client is connected, and its cache in flash.
use vstd::prelude::*;

use super::protocol::{Response, Status};
use super::{from_le_bytes, law_le_bytes_round_trip, le_bytes};
use crate::bounded::{
    payload_bytes,
    payload_clone,
    responses_slice,
    sample_list,
    samples_new,
    samples_push,
    stored_list,
    stored_new,
    stored_push,
};
use crate::can::id::{can_id_to_u32, CanId};
use crate::can::iso_tp::frame::single_frame_bytes;
use crate::can::iso_tp::functional::{
    replies,
    Collection,
    FunctionalExchange,
    FunctionalStep,
    FunctionalStepView,
};
use crate::can::iso_tp::handler::Endpoint;
use crate::can::iso_tp::mapper::Obd2IdMapper;
use crate::can::iso_tp::transfer::{EcuResponse, Reply};
use crate::can::iso_tp::types::{
    clock_in_range,
    Action,
    ActionView,
    AddressingMode,
    Event,
    N_AS_TIMEOUT,
};
use crate::can::iso_tp::wire_laws::law_single_frame_bytes;
use crate::can::obd2::{functional_id, Obd2Service};

verus! {

/// The parameters that are gathered, in their order.
pub const IMPORTANT_PIDS: [u8; 8] = [0x0C, 0x0D, 0x05, 0x0F, 0x10, 0x11, 0x2F, 0x0B];

/// Pause between two scans, in microseconds.
pub const SCAN_INTERVAL: u64 = 15_000_000;

/// Pause before another look whether the client has left, in microseconds.
pub const CONNECTED_PAUSE: u64 = 1_000_000;

/// The version of the cache's layout.
pub const CACHE_VERSION: u8 = 1;

/// Bytes before the payload.
pub const CACHE_HEADER_LEN: usize = 12;

/// Longest payload.
pub const CACHE_JSON_CAPACITY: usize = 8192;

/// A response as it is kept.
#[derive(Debug)]
pub struct StoredEcuResponse {
    pub ecu_id: u32,
    pub data: heapless::Vec<u8, 256>,
}

/// A response as it is kept, with its bytes as a sequence.
#[verifier::ext_equal]
pub struct StoredReply {
    pub ecu_id: u32,
    pub data: Seq<u8>,
}

impl View for StoredEcuResponse {
    type V = StoredReply;

    open spec fn view(&self) -> StoredReply {
        StoredReply { ecu_id: self.ecu_id, data: payload_bytes(self.data) }
    }
}

/// The responses for one parameter.
#[derive(Debug)]
pub struct StoredPidSample {
    pub pid: u8,
    pub responses: heapless::Vec<StoredEcuResponse, 8>,
}

/// The responses for one parameter as a sequence.
#[verifier::ext_equal]
pub struct Sample {
    pub pid: u8,
    pub responses: Seq<StoredReply>,
}

/// The kept responses of a list as values.
pub open spec fn stored_replies(v: heapless::Vec<StoredEcuResponse, 8>) -> Seq<StoredReply> {
    stored_list(v).map_values(|r: StoredEcuResponse| r@)
}

impl View for StoredPidSample {
    type V = Sample;

    open spec fn view(&self) -> Sample {
        Sample { pid: self.pid, responses: stored_replies(self.responses) }
    }
}

/// The outcome of one scan.
#[derive(Debug)]
pub struct StoredPidSnapshot {
    pub sequence: u32,
    pub samples: heapless::Vec<StoredPidSample, 8>,
}

/// The outcome of one scan as a sequence.
#[verifier::ext_equal]
pub struct Snapshot {
    pub sequence: u32,
    pub samples: Seq<Sample>,
}

/// The samples of a list as values.
pub open spec fn samples(v: heapless::Vec<StoredPidSample, 8>) -> Seq<Sample> {
    sample_list(v).map_values(|s: StoredPidSample| s@)
}

impl View for StoredPidSnapshot {
    type V = Snapshot;

    open spec fn view(&self) -> Snapshot {
        Snapshot { sequence: self.sequence, samples: samples(self.samples) }
    }
}

impl Snapshot {
    /// No scan has been made.
    pub open spec fn nothing() -> Snapshot {
        Snapshot { sequence: 0, samples: Seq::empty() }
    }
}

impl StoredPidSnapshot {
    /// No scan has been made.
    pub fn empty() -> (s: StoredPidSnapshot)
        ensures
            s@ == Snapshot::nothing(),
    {
        let s = StoredPidSnapshot { sequence: 0, samples: samples_new() };
        assert(s@ == Snapshot::nothing());
        s
    }
}

/// Why the cache could not be used.
#[derive(Clone, Copy, Debug, PartialEq, Eq, Structural)]
pub enum TelemetryError {
    Storage,
    Serialization,
    TooLarge,
}

/// The header of a payload of `len` bytes: "ODBC", the version, three unused bytes, the length.
pub open spec fn header_bytes(len: u32) -> Seq<u8> {
    seq![0x4Fu8, 0x44u8, 0x42u8, 0x43u8, CACHE_VERSION, 0u8, 0u8, 0u8] + le_bytes(len)
}

/// The length of the payload after a header, where the header is one of ours and the payload fits
/// both a cache of `cache_size` bytes and the room to read it.
pub open spec fn cached_len(header: Seq<u8>, cache_size: usize) -> Option<usize> {
    let len = from_le_bytes(header.subrange(8, 12));
    if header.take(5) == header_bytes(0).take(5) && 0 < len && CACHE_HEADER_LEN + len <= cache_size
        && len <= CACHE_JSON_CAPACITY {
        Some(len as usize)
    } else {
        None
    }
}

/// The number after `n`, which starts over after the largest.
pub open spec fn next_number(n: u32) -> u32 {
    if n == u32::MAX {
        0
    } else {
        (n + 1) as u32
    }
}

/// Where the cache lies in flash, and the number of the last snapshot.
#[derive(Clone, Copy, Debug, PartialEq, Eq, Structural)]
pub struct PidTelemetryStore {
    pub cache_offset: u32,
    pub cache_size: usize,
    pub sequence: u32,
}

/// Where the loading of a snapshot stands.
#[derive(Clone, Copy, Debug, PartialEq, Eq, Structural)]
pub enum LoadPhase {
    /// The header is being read.
    Header,
    /// A payload of `len` bytes is being read.
    Payload { len: usize },
    /// The payload is being parsed.
    Parsing,
}

/// What happened to the last thing that the loading asked for.
#[derive(Debug)]
pub enum LoadEvent {
    /// The flash could not be read.
    ReadFailed,
    /// The header was read.
    Header([u8; 12]),
    /// The payload was read.
    Payload,
    /// The payload is no snapshot.
    ParseFailed,
    /// The payload is a snapshot.
    Parsed(StoredPidSnapshot),
}

/// What the loading of a snapshot came to.
#[derive(Debug)]
pub enum LoadStep {
    /// Read `len` bytes of flash at `offset`.
    Read { offset: u32, len: usize },
    /// Parse the payload.
    Parse,
    Loaded(StoredPidSnapshot),
    Failed(TelemetryError),
}

/// What the loading of a snapshot came to, with the snapshot as a value.
#[verifier::ext_equal]
pub enum LoadStepView {
    Read { offset: u32, len: usize },
    Parse,
    Loaded(Snapshot),
    Failed(TelemetryError),
}

impl View for LoadStep {
    type V = LoadStepView;

    open spec fn view(&self) -> LoadStepView {
        match self {
            LoadStep::Read { offset, len } => LoadStepView::Read { offset: *offset, len: *len },
            LoadStep::Parse => LoadStepView::Parse,
            LoadStep::Loaded(snapshot) => LoadStepView::Loaded(snapshot@),
            LoadStep::Failed(e) => LoadStepView::Failed(*e),
        }
    }
}

impl LoadPhase {
    /// `event` is of the kind that the phase waits for.
    pub open spec fn expects(self, event: LoadEvent) -> bool {
        match self {
            LoadPhase::Header => event is ReadFailed || event is Header,
            LoadPhase::Payload { .. } => event is ReadFailed || event is Payload,
            LoadPhase::Parsing => event is ParseFailed || event is Parsed,
        }
    }
}

/// Where the saving of a snapshot stands.
#[derive(Clone, Copy, Debug, PartialEq, Eq, Structural)]
pub enum SavePhase {
    /// The snapshot is being serialized.
    Serializing,
    /// The header of a payload of `len` bytes is being written.
    Header { len: usize },
    /// The payload is being written.
    Payload,
}

/// What happened to the last thing that the saving asked for.
#[derive(Clone, Copy, Debug, PartialEq, Eq, Structural)]
pub enum SaveEvent {
    /// The snapshot could not be serialized.
    NotSerialized,
    /// The snapshot takes `len` bytes.
    Serialized { len: usize },
    /// The flash could not be written.
    WriteFailed,
    /// The flash was written.
    Written,
}

/// What the saving of a snapshot came to.
#[derive(Clone, Copy, Debug)]
pub enum SaveStep {
    /// Write the header to flash at `offset`.
    WriteHeader { offset: u32, header: [u8; 12] },
    /// Write the first `len` bytes of the serialized snapshot to flash at `offset`.
    WritePayload { offset: u32, len: usize },
    Saved,
    Failed(TelemetryError),
}

/// What the saving of a snapshot came to, with the header as a sequence.
#[verifier::ext_equal]
pub enum SaveStepView {
    WriteHeader { offset: u32, header: Seq<u8> },
    WritePayload { offset: u32, len: usize },
    Saved,
    Failed(TelemetryError),
}

impl View for SaveStep {
    type V = SaveStepView;

    open spec fn view(&self) -> SaveStepView {
        match self {
            SaveStep::WriteHeader { offset, header } => SaveStepView::WriteHeader {
                offset: *offset,
                header: header@,
            },
            SaveStep::WritePayload { offset, len } => SaveStepView::WritePayload {
                offset: *offset,
                len: *len,
            },
            SaveStep::Saved => SaveStepView::Saved,
            SaveStep::Failed(e) => SaveStepView::Failed(*e),
        }
    }
}

impl SavePhase {
    /// `event` is of the kind that the phase waits for. No serialized snapshot is longer than the
    /// room for it.
    pub open spec fn expects(self, event: SaveEvent) -> bool {
        match self {
            SavePhase::Serializing => match event {
                SaveEvent::NotSerialized => true,
                SaveEvent::Serialized { len } => len <= CACHE_JSON_CAPACITY,
                _ => false,
            },
            SavePhase::Header { .. } => event is WriteFailed || event is Written,
            SavePhase::Payload => event is WriteFailed || event is Written,
        }
    }
}

impl PidTelemetryStore {
    /// Where the payload lies.
    pub open spec fn payload_offset(self) -> int {
        self.cache_offset + CACHE_HEADER_LEN
    }

    /// What `event` does to a loading.
    pub open spec fn load_next(self, phase: LoadPhase, event: LoadEvent) -> (
        PidTelemetryStore,
        LoadPhase,
        LoadStepView,
    ) {
        match (phase, event) {
            (LoadPhase::Header, LoadEvent::Header(header)) => match cached_len(
                header@,
                self.cache_size,
            ) {
                None => (self, phase, LoadStepView::Loaded(Snapshot::nothing())),
                Some(len) => (
                    self,
                    LoadPhase::Payload { len },
                    LoadStepView::Read { offset: self.payload_offset() as u32, len },
                ),
            },
            (LoadPhase::Payload { .. }, LoadEvent::Payload) => (
                self,
                LoadPhase::Parsing,
                LoadStepView::Parse,
            ),
            (LoadPhase::Parsing, LoadEvent::Parsed(snapshot)) => (
                PidTelemetryStore { sequence: snapshot.sequence, ..self },
                phase,
                LoadStepView::Loaded(snapshot@),
            ),
            (LoadPhase::Parsing, _) => (
                self,
                phase,
                LoadStepView::Failed(TelemetryError::Serialization),
            ),
            _ => (self, phase, LoadStepView::Failed(TelemetryError::Storage)),
        }
    }

    /// What `event` does to a saving.
    pub open spec fn save_next(self, phase: SavePhase, event: SaveEvent) -> (
        SavePhase,
        SaveStepView,
    ) {
        match (phase, event) {
            (SavePhase::Serializing, SaveEvent::Serialized { len }) => if CACHE_HEADER_LEN + len
                > self.cache_size {
                (phase, SaveStepView::Failed(TelemetryError::TooLarge))
            } else {
                (
                    SavePhase::Header { len },
                    SaveStepView::WriteHeader {
                        offset: self.cache_offset,
                        header: header_bytes(len as u32),
                    },
                )
            },
            (SavePhase::Serializing, _) => (
                phase,
                SaveStepView::Failed(TelemetryError::Serialization),
            ),
            (SavePhase::Header { len }, SaveEvent::Written) => (
                SavePhase::Payload,
                SaveStepView::WritePayload { offset: self.payload_offset() as u32, len },
            ),
            (SavePhase::Payload, SaveEvent::Written) => (phase, SaveStepView::Saved),
            _ => (phase, SaveStepView::Failed(TelemetryError::Storage)),
        }
    }

    /// A cache of `cache_size` bytes at `cache_offset` in flash.
    pub fn new(cache_offset: u32, cache_size: usize) -> (s: PidTelemetryStore)
        ensures
            s == (PidTelemetryStore { cache_offset, cache_size, sequence: 0 }),
    {
        PidTelemetryStore { cache_offset, cache_size, sequence: 0 }
    }

    /// Starts to load the cached snapshot: the header comes first.
    pub fn start_load(&self) -> (r: (LoadPhase, LoadStep))
        ensures
            r.0 == LoadPhase::Header,
            r.1@ == (LoadStepView::Read { offset: self.cache_offset, len: CACHE_HEADER_LEN }),
    {
        (LoadPhase::Header, LoadStep::Read { offset: self.cache_offset, len: CACHE_HEADER_LEN })
    }

    /// Carries the loading of the cached snapshot on with what happened to its last step. A flash
    /// that holds no snapshot of ours gives an empty one. The number of a loaded snapshot is
    /// counted on from.
    pub fn load_snapshot(&mut self, phase: &mut LoadPhase, event: LoadEvent) -> (step: LoadStep)
        requires
            old(phase).expects(event),
            event matches LoadEvent::Header(header) ==> cached_len(
                header@,
                old(self).cache_size,
            ) is Some ==> old(self).payload_offset() <= u32::MAX,
        ensures
            (*final(self), *final(phase), step@) == old(self).load_next(*old(phase), event),
    {
        match (*phase, event) {
            (LoadPhase::Header, LoadEvent::Header(header)) => {
                match self.check_header(&header) {
                    None => LoadStep::Loaded(StoredPidSnapshot::empty()),
                    Some(len) => {
                        *phase = LoadPhase::Payload { len };
                        LoadStep::Read { offset: self.cache_offset + CACHE_HEADER_LEN as u32, len }
                    },
                }
            },
            (LoadPhase::Payload { .. }, LoadEvent::Payload) => {
                *phase = LoadPhase::Parsing;
                LoadStep::Parse
            },
            (LoadPhase::Parsing, LoadEvent::Parsed(snapshot)) => {
                self.sequence = snapshot.sequence;
                LoadStep::Loaded(snapshot)
            },
            (LoadPhase::Parsing, _) => LoadStep::Failed(TelemetryError::Serialization),
            _ => LoadStep::Failed(TelemetryError::Storage),
        }
    }

    /// The length of the payload after a header, where there is one to load.
    pub fn check_header(&self, header: &[u8; 12]) -> (r: Option<usize>)
        ensures
            r == cached_len(header@, self.cache_size),
    {
        let known = header[0] == 0x4F && header[1] == 0x44 && header[2] == 0x42 && header[3] == 0x43
            && header[4] == CACHE_VERSION;
        assert(known == (header@.take(5) == header_bytes(0).take(5))) by {
            let magic = header_bytes(0).take(5);
            assert(magic == seq![0x4Fu8, 0x44u8, 0x42u8, 0x43u8, CACHE_VERSION]);
            if known {
                assert(header@.take(5) == magic);
            }
            if header@.take(5) == magic {
                assert(header@.take(5)[0] == 0x4F && header@.take(5)[1] == 0x44
                    && header@.take(5)[2] == 0x42 && header@.take(5)[3] == 0x43
                    && header@.take(5)[4] == CACHE_VERSION);
            }
        }
        if !known {
            return None;
        }
        let payload_len: u32 = header[8] as u32 + header[9] as u32 * 0x100 + header[10] as u32
            * 0x1_0000 + header[11] as u32 * 0x100_0000;
        assert(payload_len == from_le_bytes(header@.subrange(8, 12)));
        let room: usize = if self.cache_size < CACHE_HEADER_LEN {
            0
        } else {
            self.cache_size - CACHE_HEADER_LEN
        };
        if payload_len == 0 || payload_len as usize > room || payload_len as usize
            > CACHE_JSON_CAPACITY {
            return None;
        }
        Some(payload_len as usize)
    }

    /// Starts to save a snapshot: gives it the next number and hands it back to be serialized. The
    /// number is used up even if the saving fails.
    pub fn save_snapshot(&mut self, snapshot: StoredPidSnapshot) -> (r: (
        SavePhase,
        StoredPidSnapshot,
    ))
        ensures
            *final(self) == (PidTelemetryStore {
                sequence: next_number(old(self).sequence),
                ..*old(self)
            }),
            r.0 == SavePhase::Serializing,
            r.1@ == (Snapshot { sequence: final(self).sequence, ..snapshot@ }),
    {
        self.sequence = self.sequence.wrapping_add(1);
        let numbered = StoredPidSnapshot { sequence: self.sequence, samples: snapshot.samples };
        (SavePhase::Serializing, numbered)
    }

    /// Carries the saving of a snapshot on with what happened to its last step: the header is
    /// written first, then the payload.
    pub fn continue_save(&self, phase: &mut SavePhase, event: SaveEvent) -> (step: SaveStep)
        requires
            old(phase).expects(event),
            *old(phase) is Header && event is Written ==> self.payload_offset() <= u32::MAX,
        ensures
            (*final(phase), step@) == self.save_next(*old(phase), event),
    {
        match (*phase, event) {
            (SavePhase::Serializing, SaveEvent::Serialized { len }) => {
                if len + CACHE_HEADER_LEN > self.cache_size {
                    return SaveStep::Failed(TelemetryError::TooLarge);
                }
                let n: u32 = len as u32;
                let header = [
                    0x4Fu8,
                    0x44u8,
                    0x42u8,
                    0x43u8,
                    CACHE_VERSION,
                    0u8,
                    0u8,
                    0u8,
                    (n % 0x100) as u8,
                    (n / 0x100 % 0x100) as u8,
                    (n / 0x1_0000 % 0x100) as u8,
                    (n / 0x100_0000) as u8,
                ];
                assert(header@ == header_bytes(n));
                *phase = SavePhase::Header { len };
                SaveStep::WriteHeader { offset: self.cache_offset, header }
            },
            (SavePhase::Serializing, _) => SaveStep::Failed(TelemetryError::Serialization),
            (SavePhase::Header { len }, SaveEvent::Written) => {
                *phase = SavePhase::Payload;
                SaveStep::WritePayload { offset: self.cache_offset + CACHE_HEADER_LEN as u32, len }
            },
            (SavePhase::Payload, SaveEvent::Written) => SaveStep::Saved,
            _ => SaveStep::Failed(TelemetryError::Storage),
        }
    }
}

/// A snapshot that was saved is found again: the header that was written leads the same cache to
/// read as many bytes as were written, from where they were written.
pub proof fn law_saved_payload_is_loaded(store: PidTelemetryStore, len: usize, header: [u8; 12])
    requires
        0 < len <= CACHE_JSON_CAPACITY,
        store.save_next(SavePhase::Serializing, SaveEvent::Serialized { len }).1
            == (SaveStepView::WriteHeader { offset: store.cache_offset, header: header@ }),
    ensures
        store.save_next(SavePhase::Header { len }, SaveEvent::Written).1
            == (SaveStepView::WritePayload { offset: store.payload_offset() as u32, len }),
        store.load_next(LoadPhase::Header, LoadEvent::Header(header)).2 == (LoadStepView::Read {
            offset: store.payload_offset() as u32,
            len,
        }),
{
    let h = header_bytes(len as u32);
    law_le_bytes_round_trip(len as u32);
    assert(h.subrange(8, 12) == le_bytes(len as u32));
    assert(h.take(5) == header_bytes(0).take(5));
}

/// A snapshot that was saved is loaded again, under its new number: once header and payload are
/// written, a store on the same cache that reads the header back, reads as many bytes from the same
/// place, and parses them to the snapshot that was handed out to be serialized, ends with the same
/// samples and the number that follows the saving store's, and counts on from it.
pub proof fn law_saved_snapshot_is_loaded(
    before: PidTelemetryStore,
    snapshot: Snapshot,
    len: usize,
    header: [u8; 12],
    loader: PidTelemetryStore,
    read_back: StoredPidSnapshot,
)
    requires
        0 < len <= CACHE_JSON_CAPACITY,
        (PidTelemetryStore { sequence: next_number(before.sequence), ..before }).save_next(
            SavePhase::Serializing,
            SaveEvent::Serialized { len },
        ) == (
            SavePhase::Header { len },
            SaveStepView::WriteHeader { offset: before.cache_offset, header: header@ },
        ),
        loader.cache_offset == before.cache_offset,
        loader.cache_size == before.cache_size,
        read_back@ == (Snapshot { sequence: next_number(before.sequence), ..snapshot }),
    ensures
        ({
            let store = PidTelemetryStore { sequence: next_number(before.sequence), ..before };
            let offset = store.payload_offset() as u32;
            let (first, reading, read) = loader.load_next(
                LoadPhase::Header,
                LoadEvent::Header(header),
            );
            let (second, parsing, parse) = first.load_next(reading, LoadEvent::Payload);
            let (last, _, loaded) = second.load_next(parsing, LoadEvent::Parsed(read_back));
            &&& store.save_next(SavePhase::Header { len }, SaveEvent::Written) == (
                SavePhase::Payload,
                SaveStepView::WritePayload { offset, len },
            )
            &&& store.save_next(SavePhase::Payload, SaveEvent::Written).1 == SaveStepView::Saved
            &&& read == LoadStepView::Read { offset, len }
            &&& parse == LoadStepView::Parse
            &&& loaded == LoadStepView::Loaded(
                Snapshot {
                    sequence: next_number(before.sequence),
                    samples: snapshot.samples,
                },
            )
            &&& last == PidTelemetryStore {
                sequence: next_number(before.sequence),
                ..loader
            }
        }),
{
    let store = PidTelemetryStore { sequence: next_number(before.sequence), ..before };
    law_saved_payload_is_loaded(store, len, header);
}

/// A header that does not begin as ours do loads as an empty snapshot, whatever else it holds.
pub proof fn law_foreign_flash_loads_empty(store: PidTelemetryStore, header: [u8; 12])
    requires
        header@.take(5) != header_bytes(0).take(5),
    ensures
        store.load_next(LoadPhase::Header, LoadEvent::Header(header)) == (
            store,
            LoadPhase::Header,
            LoadStepView::Loaded(Snapshot::nothing()),
        ),
{
}

/// Nothing is written or read beyond the cache.
pub proof fn law_cache_is_not_overrun(
    store: PidTelemetryStore,
    save: SavePhase,
    saved: SaveEvent,
    load: LoadPhase,
    loaded: LoadEvent,
)
    requires
        store.payload_offset() <= u32::MAX,
        save matches SavePhase::Header { len } ==> CACHE_HEADER_LEN + len <= store.cache_size,
    ensures
        match store.save_next(save, saved) {
            (SavePhase::Header { len }, SaveStepView::WriteHeader { offset, header }) => {
                &&& store.cache_offset <= offset
                &&& offset + header.len() + len <= store.cache_offset + store.cache_size
            },
            (_, SaveStepView::WritePayload { offset, len }) => {
                &&& store.cache_offset <= offset
                &&& offset + len <= store.cache_offset + store.cache_size
            },
            _ => true,
        },
        match store.load_next(load, loaded).2 {
            LoadStepView::Read { offset, len } => {
                &&& store.cache_offset <= offset
                &&& offset + len <= store.cache_offset + store.cache_size
            },
            _ => true,
        },
{
}

/// A response as it is kept.
pub open spec fn kept(r: Reply) -> StoredReply {
    StoredReply { ecu_id: r.id.number(), data: r.data }
}

/// A scan of the important parameters.
#[derive(Debug)]
pub struct SnapshotCollector {
    pub samples: heapless::Vec<StoredPidSample, 8>,
    /// Samples that have been taken.
    pub taken: usize,
    /// The request for the next parameter.
    pub exchange: FunctionalExchange,
}

/// A scan of the important parameters, with its samples as a sequence.
#[verifier::ext_equal]
pub struct Scan {
    pub samples: Seq<Sample>,
    pub taken: int,
    pub exchange: Collection,
}

impl View for SnapshotCollector {
    type V = Scan;

    open spec fn view(&self) -> Scan {
        Scan {
            samples: samples(self.samples),
            taken: self.taken as int,
            exchange: self.exchange@,
        }
    }
}

/// What a scan came to.
#[derive(Debug)]
pub enum ScanStep {
    Next(Action),
    /// A sample was taken. [`request_sample`] asks for the next one.
    Sampled,
    Complete(StoredPidSnapshot),
}

/// What a scan came to, as a value.
#[verifier::ext_equal]
pub enum ScanStepView {
    Next(ActionView),
    Sampled,
    Complete(Snapshot),
}

impl View for ScanStep {
    type V = ScanStepView;

    open spec fn view(&self) -> ScanStepView {
        match self {
            ScanStep::Next(action) => ScanStepView::Next(action@),
            ScanStep::Sampled => ScanStepView::Sampled,
            ScanStep::Complete(snapshot) => ScanStepView::Complete(snapshot@),
        }
    }
}

/// The request for the current value of `pid`.
pub open spec fn livedata_request(endpoint: Endpoint<Obd2IdMapper>, pid: u8) -> ActionView {
    ActionView::Transmit {
        id: functional_id(endpoint.mode),
        frame: single_frame_bytes(endpoint.mode, endpoint.target, seq![0x01u8, pid]),
        timeout_us: N_AS_TIMEOUT,
    }
}

impl Scan {
    /// A scan whose first request is on its way.
    pub open spec fn starting() -> Scan {
        Scan { samples: Seq::empty(), taken: 0, exchange: Collection::starting() }
    }

    /// The samples taken are those of the first parameters, in their order, and one is missing.
    pub open spec fn well_formed(self) -> bool {
        &&& self.taken == self.samples.len() < IMPORTANT_PIDS@.len()
        &&& in_order(self.samples)
        &&& self.exchange.well_formed()
    }

    /// The scan after the request for the next parameter brought `responses`.
    pub open spec fn sampled(self, responses: Seq<StoredReply>, left: Collection) -> (
        Scan,
        ScanStepView,
    ) {
        let list = self.samples.push(
            Sample { pid: IMPORTANT_PIDS@[self.samples.len() as int], responses },
        );
        if list.len() < IMPORTANT_PIDS@.len() {
            (
                Scan { samples: list, taken: list.len() as int, exchange: left },
                ScanStepView::Sampled,
            )
        } else {
            (
                Scan { samples: Seq::empty(), taken: 0, exchange: left },
                ScanStepView::Complete(Snapshot { sequence: 0, samples: list }),
            )
        }
    }

    /// What `event` at `now` does to the scan. A request that fails leaves a sample without
    /// responses.
    pub open spec fn next(self, endpoint: Endpoint<Obd2IdMapper>, event: Event, now: u64) -> (
        Scan,
        ScanStepView,
    ) {
        let (left, step) = self.exchange.next(endpoint, event, now);
        match step {
            FunctionalStepView::Next(action) => (
                Scan { exchange: left, ..self },
                ScanStepView::Next(action),
            ),
            FunctionalStepView::Complete(list) => self.sampled(
                list.map_values(|r: Reply| kept(r)),
                left,
            ),
            FunctionalStepView::Failed(_) => self.sampled(Seq::empty(), left),
        }
    }
}

/// The samples are those of the first parameters, in their order.
pub open spec fn in_order(list: Seq<Sample>) -> bool {
    forall|i: int| 0 <= i < list.len() ==> (#[trigger] list[i]).pid == IMPORTANT_PIDS@[i]
}

/// The responses of a request as they are kept.
fn keep_responses(responses: &heapless::Vec<EcuResponse, 8>) -> (stored: heapless::Vec<
    StoredEcuResponse,
    8,
>)
    ensures
        stored_replies(stored) == replies(*responses).map_values(|r: Reply| kept(r)),
{
    let list = responses_slice(responses);
    let mut stored = stored_new();
    let mut i: usize = 0;
    let ghost all = replies(*responses).map_values(|r: Reply| kept(r));
    assert(stored_replies(stored) == all.take(0));
    while i < list.len()
        invariant
            i <= list@.len() <= 8,
            list@.len() == all.len(),
            all == list@.map_values(|r: EcuResponse| r@).map_values(|r: Reply| kept(r)),
            stored_replies(stored) == all.take(i as int),
        decreases list@.len() - i,
    {
        let ghost before = stored_list(stored);
        let r = stored_push(
            &mut stored,
            StoredEcuResponse {
                ecu_id: can_id_to_u32(list[i].id),
                data: payload_clone(&list[i].data),
            },
        );
        assert(before.len() == stored_replies(stored).len() - 1 || r is Err);
        assert(r is Ok);
        assert(stored_replies(stored) == all.take(i as int).push(all[i as int]));
        assert(all.take(i as int).push(all[i as int]) == all.take(i + 1));
        i = i + 1;
    }
    assert(all.take(list@.len() as int) == all);
    stored
}

/// Starts a scan. Returns it and its first action.
pub fn start_snapshot<D>(obd_service: &Obd2Service<D>) -> (r: (SnapshotCollector, Action))
    ensures
        r.0@ == Scan::starting(),
        r.0@.well_formed(),
        r.1@ == livedata_request(obd_service.endpoint(), IMPORTANT_PIDS@[0]),
{
    let (exchange, action) = obd_service.get_broadcast_livedata(IMPORTANT_PIDS[0]).unwrap();
    let collector = SnapshotCollector { samples: samples_new(), taken: 0, exchange };
    assert(collector@ == Scan::starting());
    (collector, action)
}

/// Asks for the next important parameter. Returns the first action of the request.
pub fn request_sample<D>(collector: &mut SnapshotCollector, obd_service: &Obd2Service<D>) -> (action:
    Action)
    requires
        old(collector)@.well_formed(),
    ensures
        final(collector)@ == (Scan { exchange: Collection::starting(), ..old(collector)@ }),
        final(collector)@.well_formed(),
        action@ == livedata_request(
            obd_service.endpoint(),
            IMPORTANT_PIDS@[old(collector)@.taken],
        ),
{
    let pid: u8 = IMPORTANT_PIDS[collector.taken];
    let (exchange, action) = obd_service.get_broadcast_livedata(pid).unwrap();
    collector.exchange = exchange;
    action
}

/// Carries a scan on with what happened to its last action: keeps the responses for one important
/// parameter after the other.
pub fn collect_snapshot<D>(
    collector: &mut SnapshotCollector,
    obd_service: &Obd2Service<D>,
    event: Event,
    now: u64,
) -> (step: ScanStep)
    requires
        old(collector)@.well_formed(),
        old(collector)@.exchange.expects(event),
        old(collector)@.exchange.seen_by(now),
        clock_in_range(now),
    ensures
        (final(collector)@, step@) == old(collector)@.next(obd_service.endpoint(), event, now),
        final(collector)@.well_formed(),
        final(collector)@.exchange.seen_by(now),
        step@ matches ScanStepView::Complete(snapshot) ==> snapshot.samples.len()
            == IMPORTANT_PIDS@.len() && in_order(snapshot.samples),
{
    let responses = match obd_service.continue_functional(&mut collector.exchange, event, now) {
        FunctionalStep::Next(action) => {
            return ScanStep::Next(action);
        },
        FunctionalStep::Complete(list) => keep_responses(&list),
        FunctionalStep::Failed(_) => stored_new(),
    };
    let ghost left = collector.exchange@;
    let ghost brought = match old(collector)@.exchange.next(obd_service.endpoint(), event, now).1 {
        FunctionalStepView::Complete(list) => list.map_values(|r: Reply| kept(r)),
        _ => Seq::empty(),
    };
    assert(stored_replies(responses) == brought);
    let pid: u8 = IMPORTANT_PIDS[collector.taken];
    let ghost before = collector@.samples;
    let sample = StoredPidSample { pid, responses };
    let ghost value = sample@;
    let r = samples_push(&mut collector.samples, sample);
    assert(r is Ok);
    assert(collector@.samples == before.push(value));
    assert(old(collector)@.next(obd_service.endpoint(), event, now) == old(collector)@.sampled(
        brought,
        left,
    ));
    collector.taken = collector.taken + 1;
    if collector.taken < IMPORTANT_PIDS.len() {
        return ScanStep::Sampled;
    }
    let mut list = samples_new();
    core::mem::swap(&mut list, &mut collector.samples);
    collector.taken = 0;
    assert(samples(collector.samples) == Seq::<Sample>::empty());
    ScanStep::Complete(StoredPidSnapshot { sequence: 0, samples: list })
}

/// Where the offline scanner stands.
#[derive(Clone, Copy, Debug, PartialEq, Eq, Structural)]
pub enum ScannerPhase {
    /// Whether a client is connected is being looked at.
    Checking,
    /// A scan is under way.
    Scanning,
    /// The snapshot is being saved.
    Saving,
    /// A pause is under way.
    Resting,
}

/// What the offline scanner asks for.
#[derive(Clone, Copy, Debug, PartialEq, Eq, Structural)]
pub enum ScannerAction {
    /// Look whether a client is connected. Answered by [`ScannerEvent::Client`].
    CheckClient,
    /// Collect a snapshot. Answered by [`ScannerEvent::Collected`].
    Collect,
    /// Save the snapshot. Answered by [`ScannerEvent::Saved`].
    Save,
    /// Wait `duration_us`. Answered by [`ScannerEvent::Elapsed`].
    Pause { duration_us: u64 },
}

/// What happened to the last thing that the offline scanner asked for.
#[derive(Clone, Copy, Debug, PartialEq, Eq, Structural)]
pub enum ScannerEvent {
    Client { connected: bool },
    Collected,
    /// The saving ended, well or not.
    Saved,
    Elapsed,
}

impl ScannerPhase {
    /// `event` is of the kind that the phase waits for.
    pub open spec fn expects(self, event: ScannerEvent) -> bool {
        match self {
            ScannerPhase::Checking => event is Client,
            ScannerPhase::Scanning => event is Collected,
            ScannerPhase::Saving => event is Saved,
            ScannerPhase::Resting => event is Elapsed,
        }
    }

    /// What `event` does to the scanner. While a client is connected it only waits; otherwise it
    /// collects, saves, and waits for the next scan.
    pub open spec fn next(self, event: ScannerEvent) -> (ScannerPhase, ScannerAction) {
        match event {
            ScannerEvent::Client { connected } => if connected {
                (
                    ScannerPhase::Resting,
                    ScannerAction::Pause { duration_us: CONNECTED_PAUSE },
                )
            } else {
                (ScannerPhase::Scanning, ScannerAction::Collect)
            },
            ScannerEvent::Collected => (ScannerPhase::Saving, ScannerAction::Save),
            ScannerEvent::Saved => (
                ScannerPhase::Resting,
                ScannerAction::Pause { duration_us: SCAN_INTERVAL },
            ),
            ScannerEvent::Elapsed => (ScannerPhase::Checking, ScannerAction::CheckClient),
        }
    }
}

/// Carries the offline scanner on with what happened to its last action. It starts in
/// [`ScannerPhase::Checking`] and never ends.
pub fn run_offline_scanner(phase: &mut ScannerPhase, event: ScannerEvent) -> (action: ScannerAction)
    requires
        old(phase).expects(event),
    ensures
        (*final(phase), action) == old(phase).next(event),
{
    match event {
        ScannerEvent::Client { connected } => {
            if connected {
                *phase = ScannerPhase::Resting;
                ScannerAction::Pause { duration_us: CONNECTED_PAUSE }
            } else {
                *phase = ScannerPhase::Scanning;
                ScannerAction::Collect
            }
        },
        ScannerEvent::Collected => {
            *phase = ScannerPhase::Saving;
            ScannerAction::Save
        },
        ScannerEvent::Saved => {
            *phase = ScannerPhase::Resting;
            ScannerAction::Pause { duration_us: SCAN_INTERVAL }
        },
        ScannerEvent::Elapsed => {
            *phase = ScannerPhase::Checking;
            ScannerAction::CheckClient
        },
    }
}

/// A scan starts only right after a look found no client.
pub proof fn law_no_scan_while_connected(phase: ScannerPhase, event: ScannerEvent)
    requires
        phase.expects(event),
        phase.next(event).1 == ScannerAction::Collect,
    ensures
        event == (ScannerEvent::Client { connected: false }),
{
}

/// The answer to a client that asks for the cached snapshot. Where loading failed the client gets
/// an empty one.
pub fn send_cached_snapshot(loaded: Result<StoredPidSnapshot, TelemetryError>) -> (response: Response<
    StoredPidSnapshot,
>)
    ensures
        response.id == 0,
        response.status == Status::Success,
        response.debug is None,
        response.data matches Some(snapshot) && snapshot@ == (match loaded {
            Ok(cached) => cached@,
            Err(_) => Snapshot::nothing(),
        }),
{
    let snapshot = match loaded {
        Ok(snapshot) => snapshot,
        Err(_) => StoredPidSnapshot::empty(),
    };
    Response { id: 0, status: Status::Success, data: Some(snapshot), debug: None }
}

/// How the answer to a client went out.
#[derive(Clone, Copy, Debug, PartialEq, Eq, Structural)]
pub enum Delivery {
    NotSerialized,
    NotWritten,
    Written,
}

/// What the delivery of a cached snapshot came to.
pub fn delivery_result(delivery: Delivery) -> (r: Result<(), TelemetryError>)
    ensures
        r == (match delivery {
            Delivery::NotSerialized => Err(TelemetryError::Serialization),
            Delivery::NotWritten => Err(TelemetryError::Storage),
            Delivery::Written => Ok(()),
        }),
{
    match delivery {
        Delivery::NotSerialized => Err(TelemetryError::Serialization),
        Delivery::NotWritten => Err(TelemetryError::Storage),
        Delivery::Written => Ok(()),
    }
}

/// What is kept is what its fields say: the sender's number and the bytes of each response, the
/// responses of each sample and the samples of each snapshot, each in its place.
pub proof fn law_values_of_snapshots(
    response: StoredEcuResponse,
    sample: StoredPidSample,
    snapshot: StoredPidSnapshot,
    i: int,
)
    ensures
        response@.ecu_id == response.ecu_id,
        response@.data == payload_bytes(response.data),
        sample@.pid == sample.pid,
        sample@.responses.len() == stored_list(sample.responses).len(),
        0 <= i < sample@.responses.len() ==> sample@.responses[i] == stored_list(
            sample.responses,
        )[i]@,
        snapshot@.sequence == snapshot.sequence,
        snapshot@.samples.len() == sample_list(snapshot.samples).len(),
        0 <= i < snapshot@.samples.len() ==> snapshot@.samples[i] == sample_list(
            snapshot.samples,
        )[i]@,
{
}

/// When the request for a parameter completes, the sample that is added holds every response: as
/// many as came, and each with the number of its sender and its message unchanged. With the eighth
/// sample the scan ends with all of them; before it goes on.
pub proof fn law_every_response_is_kept(
    scan: Scan,
    endpoint: Endpoint<Obd2IdMapper>,
    event: Event,
    now: u64,
    list: Seq<Reply>,
    i: int,
)
    requires
        scan.samples.len() < 8,
        scan.exchange.next(endpoint, event, now).1 == FunctionalStepView::Complete(list),
        0 <= i < list.len(),
    ensures
        ({
            let (after, step) = scan.next(endpoint, event, now);
            let samples = if step is Sampled {
                after.samples
            } else {
                step->Complete_0.samples
            };
            &&& step is Sampled <==> scan.samples.len() < 7
            &&& step is Complete <==> scan.samples.len() == 7
            &&& samples.len() == scan.samples.len() + 1
            &&& samples.drop_last() == scan.samples
            &&& samples.last().responses.len() == list.len()
            &&& samples.last().responses[i].ecu_id == list[i].id.number()
            &&& samples.last().responses[i].data == list[i].data
        }),
{
    let (after, step) = scan.next(endpoint, event, now);
    let samples = if step is Sampled {
        after.samples
    } else {
        step->Complete_0.samples
    };
    assert(samples.drop_last() == scan.samples);
}

/// A request that fails adds a sample without responses, and the scan goes on like after any other.
pub proof fn law_failed_request_leaves_an_empty_sample(
    scan: Scan,
    endpoint: Endpoint<Obd2IdMapper>,
    event: Event,
    now: u64,
)
    requires
        scan.samples.len() < 8,
        scan.exchange.next(endpoint, event, now).1 is Failed,
    ensures
        ({
            let (after, step) = scan.next(endpoint, event, now);
            let samples = if step is Sampled {
                after.samples
            } else {
                step->Complete_0.samples
            };
            &&& step is Sampled <==> scan.samples.len() < 7
            &&& step is Complete <==> scan.samples.len() == 7
            &&& samples.len() == scan.samples.len() + 1
            &&& samples.drop_last() == scan.samples
            &&& samples.last().responses.len() == 0
        }),
{
    let (after, step) = scan.next(endpoint, event, now);
    let samples = if step is Sampled {
        after.samples
    } else {
        step->Complete_0.samples
    };
    assert(samples.drop_last() == scan.samples);
}

/// While a request goes on, so does the scan, with the request's action and nothing else changed.
/// A scan that has ended starts over without samples; its snapshot has no number yet.
pub proof fn law_scan_goes_on(
    scan: Scan,
    endpoint: Endpoint<Obd2IdMapper>,
    event: Event,
    now: u64,
)
    requires
        scan.taken == scan.samples.len() < 8,
    ensures
        ({
            let (left, under) = scan.exchange.next(endpoint, event, now);
            let (after, step) = scan.next(endpoint, event, now);
            &&& after.exchange == left
            &&& under is Next <==> step is Next
            &&& under is Next ==> {
                &&& step->Next_0 == under->Next_0
                &&& after.samples == scan.samples && after.taken == scan.taken
            }
            &&& step is Sampled ==> after.taken == scan.taken + 1 == after.samples.len()
            &&& step is Complete ==> {
                &&& after.taken == 0 && after.samples.len() == 0
                &&& step->Complete_0.sequence == 0
            }
        }),
{
}

/// The parameters of a scan: engine speed, vehicle speed, coolant and intake temperature, air flow,
/// throttle, fuel level and intake pressure. Each sample has the parameter of its place.
pub proof fn law_scanned_parameters(
    scan: Scan,
    endpoint: Endpoint<Obd2IdMapper>,
    event: Event,
    now: u64,
)
    requires
        scan.samples.len() < 8,
        !(scan.exchange.next(endpoint, event, now).1 is Next),
    ensures
        IMPORTANT_PIDS@ == seq![0x0Cu8, 0x0Du8, 0x05u8, 0x0Fu8, 0x10u8, 0x11u8, 0x2Fu8, 0x0Bu8],
        ({
            let (after, step) = scan.next(endpoint, event, now);
            let samples = if step is Sampled {
                after.samples
            } else {
                step->Complete_0.samples
            };
            samples.last().pid == seq![
                0x0Cu8,
                0x0Du8,
                0x05u8,
                0x0Fu8,
                0x10u8,
                0x11u8,
                0x2Fu8,
                0x0Bu8,
            ][scan.samples.len() as int]
        }),
{
    assert(IMPORTANT_PIDS@ == seq![
        0x0Cu8,
        0x0Du8,
        0x05u8,
        0x0Fu8,
        0x10u8,
        0x11u8,
        0x2Fu8,
        0x0Bu8,
    ]);
}

/// A scan starts without samples and responses.
pub proof fn law_scan_starts()
    ensures
        Scan::starting().samples.len() == 0,
        Scan::starting().taken == 0,
        Scan::starting().exchange.responses.len() == 0,
        Scan::starting().exchange.states.len() == 0,
        Snapshot::nothing().samples.len() == 0,
        Snapshot::nothing().sequence == 0,
{
}

/// The request for a parameter byte by byte: two bytes, the service 1 and the parameter, padded
/// with 0xCC and sent within five seconds on the functional identifier.
pub proof fn law_request_for_a_parameter(endpoint: Endpoint<Obd2IdMapper>, pid: u8)
    ensures
        ({
            let o = if endpoint.mode == AddressingMode::Normal {
                0int
            } else {
                1int
            };
            match livedata_request(endpoint, pid) {
                ActionView::Transmit { id, frame, timeout_us } => {
                    &&& o == 0 ==> id == CanId::Standard(0x7DF)
                    &&& o == 1 ==> id == CanId::Extended(0x18DB_33F1)
                    &&& timeout_us == 5_000_000
                    &&& frame.len() == 8
                    &&& o == 1 ==> frame[0] == endpoint.target
                    &&& frame[o] == 2 && frame[o + 1] == 1 && frame[o + 2] == pid
                    &&& forall|i: int| o + 3 <= i < 8 ==> #[trigger] frame[i] == 0xCC
                },
                _ => false,
            }
        }),
{
    let request = seq![0x01u8, pid];
    law_single_frame_bytes(endpoint.mode, endpoint.target, request);
    assert(request[0] == 1 && request[1] == pid);
}

/// The header byte by byte: "ODBC", version 1, three zeros, and the length, the lowest byte first.
pub proof fn law_header_of_the_cache(len: u32)
    ensures
        ({
            let h = header_bytes(len);
            &&& h.len() == 12
            &&& h[0] == 0x4F && h[1] == 0x44 && h[2] == 0x42 && h[3] == 0x43
            &&& h[4] == 1
            &&& h[5] == 0 && h[6] == 0 && h[7] == 0
            &&& h[8] + h[9] * 0x100 + h[10] * 0x1_0000 + h[11] * 0x100_0000 == len
        }),
{
    law_le_bytes_round_trip(len);
}

/// A header leads to a payload where it begins with "ODBC" and version 1 and its length is 1 to
/// 8192 and fits the cache behind the header; and only there.
pub proof fn law_header_is_read(h: Seq<u8>, cache_size: usize)
    requires
        h.len() == 12,
    ensures
        ({
            let len = h[8] + h[9] * 0x100 + h[10] * 0x1_0000 + h[11] * 0x100_0000;
            let ours = h[0] == 0x4F && h[1] == 0x44 && h[2] == 0x42 && h[3] == 0x43 && h[4] == 1;
            match cached_len(h, cache_size) {
                Some(n) => ours && n == len && 1 <= len <= 8192 && 12 + len <= cache_size,
                None => !ours || len == 0 || len > 8192 || 12 + len > cache_size,
            }
        }),
{
    let ours = h[0] == 0x4F && h[1] == 0x44 && h[2] == 0x42 && h[3] == 0x43 && h[4] == 1;
    let magic = header_bytes(0).take(5);
    assert(magic == seq![0x4Fu8, 0x44u8, 0x42u8, 0x43u8, 1u8]);
    if ours {
        assert(h.take(5) == magic);
    }
    if h.take(5) == magic {
        assert(h.take(5)[0] == 0x4F && h.take(5)[1] == 0x44 && h.take(5)[2] == 0x42 && h.take(5)[3]
            == 0x43 && h.take(5)[4] == 1);
    }
    let field = h.subrange(8, 12);
    assert(field[0] == h[8] && field[1] == h[9] && field[2] == h[10] && field[3] == h[11]);
}

/// How a cached snapshot is loaded: without a header of ours it is empty; otherwise the payload is
/// read twelve bytes behind the start, parsed, and handed out as it was parsed. Only a parsed
/// snapshot changes the store: its number is counted on from.
pub proof fn law_steps_of_loading(
    store: PidTelemetryStore,
    header: [u8; 12],
    len: usize,
    snapshot: StoredPidSnapshot,
)
    requires
        store.cache_offset + 12 <= u32::MAX,
    ensures
        ({
            let found = cached_len(header@, store.cache_size);
            let (s1, p1, read) = store.load_next(LoadPhase::Header, LoadEvent::Header(header));
            let (s2, p2, parse) = store.load_next(LoadPhase::Payload { len }, LoadEvent::Payload);
            let (s3, _, loaded) = store.load_next(LoadPhase::Parsing, LoadEvent::Parsed(snapshot));
            &&& s1 == store && s2 == store
            &&& found is None ==> (read matches LoadStepView::Loaded(empty) && empty.sequence == 0
                && empty.samples.len() == 0)
            &&& found matches Some(n) ==> {
                &&& p1 == LoadPhase::Payload { len: n }
                &&& read matches LoadStepView::Read { offset, len: want } && offset
                    == store.cache_offset + 12 && want == n
            }
            &&& p2 == LoadPhase::Parsing && parse == LoadStepView::Parse
            &&& s3.cache_offset == store.cache_offset && s3.cache_size == store.cache_size
            &&& s3.sequence == snapshot.sequence
            &&& loaded == LoadStepView::Loaded(snapshot@)
        }),
{
}

/// How loading fails: with `Storage` where the flash cannot be read, with `Serialization` where the
/// payload is no snapshot. The store stays as it is.
pub proof fn law_loading_fails(store: PidTelemetryStore, len: usize)
    ensures
        ({
            let (s1, _, header) = store.load_next(LoadPhase::Header, LoadEvent::ReadFailed);
            let (s2, _, payload) = store.load_next(
                LoadPhase::Payload { len },
                LoadEvent::ReadFailed,
            );
            let (s3, _, parsed) = store.load_next(LoadPhase::Parsing, LoadEvent::ParseFailed);
            &&& s1 == store && s2 == store && s3 == store
            &&& header == LoadStepView::Failed(TelemetryError::Storage)
            &&& payload == LoadStepView::Failed(TelemetryError::Storage)
            &&& parsed == LoadStepView::Failed(TelemetryError::Serialization)
        }),
{
}

/// How a snapshot is saved: where it fits behind twelve bytes of header, the header of its length
/// goes to the start of the cache, then all of it twelve bytes behind; otherwise it is `TooLarge`.
pub proof fn law_steps_of_saving(store: PidTelemetryStore, len: usize)
    requires
        len <= 8192,
        store.cache_offset + 12 <= u32::MAX,
    ensures
        ({
            let (p1, first) = store.save_next(
                SavePhase::Serializing,
                SaveEvent::Serialized { len },
            );
            let (p2, second) = store.save_next(SavePhase::Header { len }, SaveEvent::Written);
            let (_, third) = store.save_next(SavePhase::Payload, SaveEvent::Written);
            &&& 12 + len > store.cache_size ==> first == SaveStepView::Failed(
                TelemetryError::TooLarge,
            )
            &&& 12 + len <= store.cache_size ==> {
                &&& p1 == SavePhase::Header { len }
                &&& first == SaveStepView::WriteHeader {
                    offset: store.cache_offset,
                    header: header_bytes(len as u32),
                }
            }
            &&& p2 == SavePhase::Payload
            &&& second matches SaveStepView::WritePayload { offset, len: all } && offset
                == store.cache_offset + 12 && all == len
            &&& third == SaveStepView::Saved
        }),
{
}

/// How saving fails: with `Serialization` where the snapshot cannot be serialized, with `Storage`
/// where the flash cannot be written.
pub proof fn law_saving_fails(store: PidTelemetryStore, len: usize)
    ensures
        store.save_next(SavePhase::Serializing, SaveEvent::NotSerialized).1
            == SaveStepView::Failed(TelemetryError::Serialization),
        store.save_next(SavePhase::Header { len }, SaveEvent::WriteFailed).1
            == SaveStepView::Failed(TelemetryError::Storage),
        store.save_next(SavePhase::Payload, SaveEvent::WriteFailed).1 == SaveStepView::Failed(
            TelemetryError::Storage,
        ),
{
}

/// Snapshots are numbered one by one; the largest number is followed by 0.
pub proof fn law_numbers_of_snapshots(n: u32)
    ensures
        n < 0xFFFF_FFFF ==> next_number(n) == n + 1,
        n == 0xFFFF_FFFF ==> next_number(n) == 0,
{
}

/// The scanner's round: a look, then a second of rest while a client is connected; otherwise a
/// scan, its saving, and fifteen seconds of rest. Every rest is followed by a look.
pub proof fn law_round_of_the_scanner()
    ensures
        ScannerPhase::Checking.next(ScannerEvent::Client { connected: true }) == (
            ScannerPhase::Resting,
            ScannerAction::Pause { duration_us: 1_000_000 },
        ),
        ScannerPhase::Checking.next(ScannerEvent::Client { connected: false }) == (
            ScannerPhase::Scanning,
            ScannerAction::Collect,
        ),
        ScannerPhase::Scanning.next(ScannerEvent::Collected) == (
            ScannerPhase::Saving,
            ScannerAction::Save,
        ),
        ScannerPhase::Saving.next(ScannerEvent::Saved) == (
            ScannerPhase::Resting,
            ScannerAction::Pause { duration_us: 15_000_000 },
        ),
        ScannerPhase::Resting.next(ScannerEvent::Elapsed) == (
            ScannerPhase::Checking,
            ScannerAction::CheckClient,
        ),
{
}

/// The steps of loading, saving and scanning are what they hold.
pub proof fn law_values_of_cache_steps(
    offset: u32,
    len: usize,
    header: [u8; 12],
    snapshot: StoredPidSnapshot,
    action: Action,
    e: TelemetryError,
)
    ensures
        (LoadStep::Read { offset, len })@ == (LoadStepView::Read { offset, len }),
        LoadStep::Parse@ == LoadStepView::Parse,
        LoadStep::Loaded(snapshot)@ == LoadStepView::Loaded(snapshot@),
        LoadStep::Failed(e)@ == LoadStepView::Failed(e),
        (SaveStep::WriteHeader { offset, header })@ == (SaveStepView::WriteHeader {
            offset,
            header: header@,
        }),
        (SaveStep::WritePayload { offset, len })@ == (SaveStepView::WritePayload { offset, len }),
        SaveStep::Saved@ == SaveStepView::Saved,
        SaveStep::Failed(e)@ == SaveStepView::Failed(e),
        ScanStep::Next(action)@ == ScanStepView::Next(action@),
        ScanStep::Sampled@ == ScanStepView::Sampled,
        ScanStep::Complete(snapshot)@ == ScanStepView::Complete(snapshot@),
{
}

/// A scan is what it holds: its samples, each in its place, how many there are, and the request
/// under way.
pub proof fn law_values_of_scans(collector: SnapshotCollector, i: int)
    ensures
        collector@.taken == collector.taken,
        collector@.exchange == collector.exchange@,
        collector@.samples.len() == sample_list(collector.samples).len(),
        0 <= i < collector@.samples.len() ==> collector@.samples[i] == sample_list(
            collector.samples,
        )[i]@,
{
}

} // verus!
