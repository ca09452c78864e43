//! The shapes of the upstream JSON-RPC conversation.
//!
//! A [`Request`] names a method and its arguments; the builders below
//! construct each request the server issues.  A [`Response`] carries the
//! upstream's result word and typed arguments.  The `wire_name` methods give
//! each enum its exact spelling on the wire, so the serialization layer
//! outside the library has nothing to decide.

use vstd::prelude::*;
use vstd::string::StringExecFns;

verus! {

/// One request to the upstream job-control service.
#[derive(Clone, Debug)]
pub struct Request {
    pub request: RequestInner,
    pub tag: Option<u32>,
}

impl Request {
    pub fn session_get(keys: Vec<SessionGetKey>) -> (r: Self)
        ensures
            r.request matches RequestInner::SessionGet { fields } && fields@ == keys@,
            r.tag is None,
    {
        let request = RequestInner::SessionGet { fields: keys };
        Self { request, tag: None }
    }

    pub fn torrent_get(
        format: TorrentGetFormat,
        keys: Vec<TorrentGetKey>,
        ids: Option<Vec<String>>,
    ) -> (r: Self)
        ensures
            ({
                &&& r.request matches RequestInner::TorrentGet {
                    format: f,
                    fields: ks,
                    ids: i,
                }
                &&& f == format
                &&& ks@ == keys@
                &&& i == ids
            }),
            r.tag is None,
    {
        let request = RequestInner::TorrentGet { format, ids, fields: keys };
        Self { request, tag: None }
    }

    pub fn torrent_start(ids: Option<Vec<String>>) -> (r: Self)
        ensures
            r.request matches RequestInner::TorrentStart { ids: i } && i == ids,
            r.tag is None,
    {
        let request = RequestInner::TorrentStart { ids };
        Self { request, tag: None }
    }

    pub fn torrent_stop(ids: Option<Vec<String>>) -> (r: Self)
        ensures
            r.request matches RequestInner::TorrentStop { ids: i } && i == ids,
            r.tag is None,
    {
        let request = RequestInner::TorrentStop { ids };
        Self { request, tag: None }
    }

    pub fn torrent_verify(ids: Option<Vec<String>>) -> (r: Self)
        ensures
            r.request matches RequestInner::TorrentVerify { ids: i } && i == ids,
            r.tag is None,
    {
        let request = RequestInner::TorrentVerify { ids };
        Self { request, tag: None }
    }

    /// An add request: everything optional stays unset except `paused`.
    pub fn torrent_add(required: TorrentAddRequired, paused: bool) -> (r: Self)
        ensures
            ({
                &&& r.request matches RequestInner::TorrentAdd {
                    required: rq,
                    cookies,
                    download_dir,
                    labels,
                    paused: p,
                    peer_limit,
                    bandwidth_priority,
                    files_wanted,
                    files_unwanted,
                    priority_high,
                    priority_low,
                    priority_normal,
                }
                &&& rq == required
                &&& cookies is None
                &&& download_dir is None
                &&& labels is None
                &&& p == Some(paused)
                &&& peer_limit is None
                &&& bandwidth_priority is None
                &&& files_wanted is None
                &&& files_unwanted is None
                &&& priority_high is None
                &&& priority_low is None
                &&& priority_normal is None
            }),
            r.tag is None,
    {
        let request = RequestInner::TorrentAdd {
            required,
            cookies: None,
            download_dir: None,
            labels: None,
            paused: Some(paused),
            peer_limit: None,
            bandwidth_priority: None,
            files_wanted: None,
            files_unwanted: None,
            priority_high: None,
            priority_low: None,
            priority_normal: None,
        };
        Self { request, tag: None }
    }

    /// Sets or clears the request's tag; the rest stays as it was.
    pub fn tag(&mut self, tag: Option<u32>)
        ensures
            final(self).tag == tag,
            final(self).request == old(self).request,
    {
        self.tag = tag;
    }
}

/// The methods of the upstream protocol and their arguments.
#[derive(Clone, Debug)]
pub enum RequestInner {
    SessionGet {
        fields: Vec<SessionGetKey>,
    },
    TorrentGet {
        format: TorrentGetFormat,
        fields: Vec<TorrentGetKey>,
        ids: Option<Vec<String>>,
    },
    TorrentStart {
        ids: Option<Vec<String>>,
    },
    TorrentStop {
        ids: Option<Vec<String>>,
    },
    TorrentVerify {
        ids: Option<Vec<String>>,
    },
    TorrentAdd {
        required: TorrentAddRequired,
        cookies: Option<String>,
        download_dir: Option<String>,
        labels: Option<Vec<String>>,
        paused: Option<bool>,
        peer_limit: Option<u32>,
        bandwidth_priority: Option<u32>,
        files_wanted: Option<Vec<u32>>,
        files_unwanted: Option<Vec<u32>>,
        priority_high: Option<Vec<u32>>,
        priority_low: Option<Vec<u32>>,
        priority_normal: Option<Vec<u32>>,
    },
}

impl RequestInner {
    /// The method's name on the wire.
    pub open spec fn spec_method_name(&self) -> Seq<char> {
        match self {
            RequestInner::SessionGet { .. } => "session-get"@,
            RequestInner::TorrentGet { .. } => "torrent-get"@,
            RequestInner::TorrentStart { .. } => "torrent-start"@,
            RequestInner::TorrentStop { .. } => "torrent-stop"@,
            RequestInner::TorrentVerify { .. } => "torrent-verify"@,
            RequestInner::TorrentAdd { .. } => "torrent-add"@,
        }
    }

    /// The method's name on the wire.
    pub fn method_name(&self) -> (r: &'static str)
        ensures
            r@ == self.spec_method_name(),
    {
        match self {
            RequestInner::SessionGet { .. } => "session-get",
            RequestInner::TorrentGet { .. } => "torrent-get",
            RequestInner::TorrentStart { .. } => "torrent-start",
            RequestInner::TorrentStop { .. } => "torrent-stop",
            RequestInner::TorrentVerify { .. } => "torrent-verify",
            RequestInner::TorrentAdd { .. } => "torrent-add",
        }
    }
}

/// What an add request must carry: a source, by name or inline.
#[derive(Clone, Debug)]
pub enum TorrentAddRequired {
    Filename(String),
    Metainfo(String),
}

impl TorrentAddRequired {
    /// The argument's key on the wire.
    pub open spec fn spec_wire_name(&self) -> Seq<char> {
        match self {
            TorrentAddRequired::Filename(_) => "filename"@,
            TorrentAddRequired::Metainfo(_) => "metainfo"@,
        }
    }

    /// The argument's key on the wire.
    pub fn wire_name(&self) -> (r: &'static str)
        ensures
            r@ == self.spec_wire_name(),
    {
        match self {
            TorrentAddRequired::Filename(_) => "filename",
            TorrentAddRequired::Metainfo(_) => "metainfo",
        }
    }

    /// The argument's value.
    pub fn value(&self) -> (r: &str)
        ensures
            ({
                let v = match *self {
                    TorrentAddRequired::Filename(ref x) => x,
                    TorrentAddRequired::Metainfo(ref x) => x,
                };
                r@ == v@
            }),
    {
        match self {
            TorrentAddRequired::Filename(x) => x.as_str(),
            TorrentAddRequired::Metainfo(x) => x.as_str(),
        }
    }
}

/// The keys a `session-get` request may ask for.
#[derive(Clone, Copy, Debug, Hash, Eq, PartialEq, Structural)]
pub enum SessionGetKey {
    AltSpeedDown,
    AltSpeedEnabled,
    AltSpeedTimeBegin,
    AltSpeedTimeDay,
    AltSpeedTimeEnabled,
    AltSpeedTimeEnd,
    AltSpeedUp,
    BlocklistEnabled,
    BlocklistSize,
    BlocklistUrl,
    CacheSizeMb,
    ConfigDir,
    DefaultTrackers,
    DhtEnabled,
    DownloadDir,
    DownloadDirFreeSpace,
    DownloadQueueEnabled,
    DownloadQueueSize,
    Encryption,
    IdleSeedingLimitEnabled,
    IdleSeedingLimit,
    IncompleteDirEnabled,
    IncompleteDir,
    LpdEnabled,
    PeerLimitGlobal,
    PeerLimitPerTorrent,
    PeerPortRandomOnStart,
    PeerPort,
    PexEnabled,
    PortForwardingEnabled,
    QueueStalledEnabled,
    QueueStalledMinutes,
    RenamePartialFiles,
    RpcVersionMinimum,
    RpcVersionSemver,
    RpcVersion,
    ScriptTorrentAddedEnabled,
    ScriptTorrentAddedFilename,
    ScriptTorrentDoneEnabled,
    ScriptTorrentDoneFilename,
    ScriptTorrentDoneSeedingEnabled,
    ScriptTorrentDoneSeedingFilename,
    SeedQueueEnabled,
    SeedQueueSize,
    SeedRatioLimit,
    SeedRatioLimited,
    SessionId,
    SpeedLimitDownEnabled,
    SpeedLimitDown,
    SpeedLimitUpEnabled,
    SpeedLimitUp,
    StartAddedTorrents,
    TrashOriginalTorrentFiles,
    Units,
    UtpEnabled,
    Version,
}

impl SessionGetKey {
    /// The key's name on the wire.
    pub open spec fn spec_wire_name(self) -> Seq<char> {
        match self {
            SessionGetKey::AltSpeedDown => "alt-speed-down"@,
            SessionGetKey::AltSpeedEnabled => "alt-speed-enabled"@,
            SessionGetKey::AltSpeedTimeBegin => "alt-speed-time-begin"@,
            SessionGetKey::AltSpeedTimeDay => "alt-speed-time-day"@,
            SessionGetKey::AltSpeedTimeEnabled => "alt-speed-time-enabled"@,
            SessionGetKey::AltSpeedTimeEnd => "alt-speed-time-end"@,
            SessionGetKey::AltSpeedUp => "alt-speed-up"@,
            SessionGetKey::BlocklistEnabled => "blocklist-enabled"@,
            SessionGetKey::BlocklistSize => "blocklist-size"@,
            SessionGetKey::BlocklistUrl => "blocklist-url"@,
            SessionGetKey::CacheSizeMb => "cache-size-mb"@,
            SessionGetKey::ConfigDir => "config-dir"@,
            SessionGetKey::DefaultTrackers => "default-trackers"@,
            SessionGetKey::DhtEnabled => "dht-enabled"@,
            SessionGetKey::DownloadDir => "download-dir"@,
            SessionGetKey::DownloadDirFreeSpace => "download-dir-free-space"@,
            SessionGetKey::DownloadQueueEnabled => "download-queue-enabled"@,
            SessionGetKey::DownloadQueueSize => "download-queue-size"@,
            SessionGetKey::Encryption => "encryption"@,
            SessionGetKey::IdleSeedingLimitEnabled => "idle-seeding-limit-enabled"@,
            SessionGetKey::IdleSeedingLimit => "idle-seeding-limit"@,
            SessionGetKey::IncompleteDirEnabled => "incomplete-dir-enabled"@,
            SessionGetKey::IncompleteDir => "incomplete-dir"@,
            SessionGetKey::LpdEnabled => "lpd-enabled"@,
            SessionGetKey::PeerLimitGlobal => "peer-limit-global"@,
            SessionGetKey::PeerLimitPerTorrent => "peer-limit-per-torrent"@,
            SessionGetKey::PeerPortRandomOnStart => "peer-port-random-on-start"@,
            SessionGetKey::PeerPort => "peer-port"@,
            SessionGetKey::PexEnabled => "pex-enabled"@,
            SessionGetKey::PortForwardingEnabled => "port-forwarding-enabled"@,
            SessionGetKey::QueueStalledEnabled => "queue-stalled-enabled"@,
            SessionGetKey::QueueStalledMinutes => "queue-stalled-minutes"@,
            SessionGetKey::RenamePartialFiles => "rename-partial-files"@,
            SessionGetKey::RpcVersionMinimum => "rpc-version-minimum"@,
            SessionGetKey::RpcVersionSemver => "rpc-version-semver"@,
            SessionGetKey::RpcVersion => "rpc-version"@,
            SessionGetKey::ScriptTorrentAddedEnabled => "script-torrent-added-enabled"@,
            SessionGetKey::ScriptTorrentAddedFilename => "script-torrent-added-filename"@,
            SessionGetKey::ScriptTorrentDoneEnabled => "script-torrent-done-enabled"@,
            SessionGetKey::ScriptTorrentDoneFilename => "script-torrent-done-filename"@,
            SessionGetKey::ScriptTorrentDoneSeedingEnabled => "script-torrent-done-seeding-enabled"@,
            SessionGetKey::ScriptTorrentDoneSeedingFilename => "script-torrent-done-seeding-filename"@,
            SessionGetKey::SeedQueueEnabled => "seed-queue-enabled"@,
            SessionGetKey::SeedQueueSize => "seed-queue-size"@,
            SessionGetKey::SeedRatioLimit => "seedRatioLimit"@,
            SessionGetKey::SeedRatioLimited => "seedRatioLimited"@,
            SessionGetKey::SessionId => "session-id"@,
            SessionGetKey::SpeedLimitDownEnabled => "speed-limit-down-enabled"@,
            SessionGetKey::SpeedLimitDown => "speed-limit-down"@,
            SessionGetKey::SpeedLimitUpEnabled => "speed-limit-up-enabled"@,
            SessionGetKey::SpeedLimitUp => "speed-limit-up"@,
            SessionGetKey::StartAddedTorrents => "start-added-torrents"@,
            SessionGetKey::TrashOriginalTorrentFiles => "trash-original-torrent-files"@,
            SessionGetKey::Units => "units"@,
            SessionGetKey::UtpEnabled => "utp-enabled"@,
            SessionGetKey::Version => "version"@,
        }
    }

    /// The key's name on the wire.
    pub fn wire_name(&self) -> (r: &'static str)
        ensures
            r@ == self.spec_wire_name(),
    {
        match self {
            SessionGetKey::AltSpeedDown => "alt-speed-down",
            SessionGetKey::AltSpeedEnabled => "alt-speed-enabled",
            SessionGetKey::AltSpeedTimeBegin => "alt-speed-time-begin",
            SessionGetKey::AltSpeedTimeDay => "alt-speed-time-day",
            SessionGetKey::AltSpeedTimeEnabled => "alt-speed-time-enabled",
            SessionGetKey::AltSpeedTimeEnd => "alt-speed-time-end",
            SessionGetKey::AltSpeedUp => "alt-speed-up",
            SessionGetKey::BlocklistEnabled => "blocklist-enabled",
            SessionGetKey::BlocklistSize => "blocklist-size",
            SessionGetKey::BlocklistUrl => "blocklist-url",
            SessionGetKey::CacheSizeMb => "cache-size-mb",
            SessionGetKey::ConfigDir => "config-dir",
            SessionGetKey::DefaultTrackers => "default-trackers",
            SessionGetKey::DhtEnabled => "dht-enabled",
            SessionGetKey::DownloadDir => "download-dir",
            SessionGetKey::DownloadDirFreeSpace => "download-dir-free-space",
            SessionGetKey::DownloadQueueEnabled => "download-queue-enabled",
            SessionGetKey::DownloadQueueSize => "download-queue-size",
            SessionGetKey::Encryption => "encryption",
            SessionGetKey::IdleSeedingLimitEnabled => "idle-seeding-limit-enabled",
            SessionGetKey::IdleSeedingLimit => "idle-seeding-limit",
            SessionGetKey::IncompleteDirEnabled => "incomplete-dir-enabled",
            SessionGetKey::IncompleteDir => "incomplete-dir",
            SessionGetKey::LpdEnabled => "lpd-enabled",
            SessionGetKey::PeerLimitGlobal => "peer-limit-global",
            SessionGetKey::PeerLimitPerTorrent => "peer-limit-per-torrent",
            SessionGetKey::PeerPortRandomOnStart => "peer-port-random-on-start",
            SessionGetKey::PeerPort => "peer-port",
            SessionGetKey::PexEnabled => "pex-enabled",
            SessionGetKey::PortForwardingEnabled => "port-forwarding-enabled",
            SessionGetKey::QueueStalledEnabled => "queue-stalled-enabled",
            SessionGetKey::QueueStalledMinutes => "queue-stalled-minutes",
            SessionGetKey::RenamePartialFiles => "rename-partial-files",
            SessionGetKey::RpcVersionMinimum => "rpc-version-minimum",
            SessionGetKey::RpcVersionSemver => "rpc-version-semver",
            SessionGetKey::RpcVersion => "rpc-version",
            SessionGetKey::ScriptTorrentAddedEnabled => "script-torrent-added-enabled",
            SessionGetKey::ScriptTorrentAddedFilename => "script-torrent-added-filename",
            SessionGetKey::ScriptTorrentDoneEnabled => "script-torrent-done-enabled",
            SessionGetKey::ScriptTorrentDoneFilename => "script-torrent-done-filename",
            SessionGetKey::ScriptTorrentDoneSeedingEnabled => "script-torrent-done-seeding-enabled",
            SessionGetKey::ScriptTorrentDoneSeedingFilename => "script-torrent-done-seeding-filename",
            SessionGetKey::SeedQueueEnabled => "seed-queue-enabled",
            SessionGetKey::SeedQueueSize => "seed-queue-size",
            SessionGetKey::SeedRatioLimit => "seedRatioLimit",
            SessionGetKey::SeedRatioLimited => "seedRatioLimited",
            SessionGetKey::SessionId => "session-id",
            SessionGetKey::SpeedLimitDownEnabled => "speed-limit-down-enabled",
            SessionGetKey::SpeedLimitDown => "speed-limit-down",
            SessionGetKey::SpeedLimitUpEnabled => "speed-limit-up-enabled",
            SessionGetKey::SpeedLimitUp => "speed-limit-up",
            SessionGetKey::StartAddedTorrents => "start-added-torrents",
            SessionGetKey::TrashOriginalTorrentFiles => "trash-original-torrent-files",
            SessionGetKey::Units => "units",
            SessionGetKey::UtpEnabled => "utp-enabled",
            SessionGetKey::Version => "version",
        }
    }
}
/// The two result layouts of a `torrent-get` request.
#[derive(Clone, Copy, Debug, Hash, Eq, PartialEq, Structural)]
pub enum TorrentGetFormat {
    Objects,
    Table,
}

impl TorrentGetFormat {
    /// The key's name on the wire.
    pub open spec fn spec_wire_name(self) -> Seq<char> {
        match self {
            TorrentGetFormat::Objects => "objects"@,
            TorrentGetFormat::Table => "table"@,
        }
    }

    /// The key's name on the wire.
    pub fn wire_name(&self) -> (r: &'static str)
        ensures
            r@ == self.spec_wire_name(),
    {
        match self {
            TorrentGetFormat::Objects => "objects",
            TorrentGetFormat::Table => "table",
        }
    }
}
/// The per-job keys a `torrent-get` request may ask for.
#[derive(Clone, Copy, Debug, Hash, Eq, PartialEq, PartialOrd, Ord, Structural)]
pub enum TorrentGetKey {
    ActivityDate,
    AddedDate,
    Availability,
    BandwidthPriority,
    Comment,
    CorruptEver,
    Creator,
    DateCreated,
    DesiredAvailable,
    DoneDate,
    DownloadDir,
    DownloadedEver,
    DownloadLimit,
    DownloadLimited,
    EditDate,
    Error,
    ErrorString,
    Eta,
    EtaIdle,
    FileCount,
    Files,
    FileStats,
    Group,
    HashString,
    HaveUnchecked,
    HaveValid,
    HonorsSessionLimits,
    Id,
    IsFinished,
    IsPrivate,
    IsStalled,
    Labels,
    LeftUntilDone,
    MagnetLink,
    ManualAnnounceTime,
    MaxConnectedPeers,
    MetadataPercentComplete,
    Name,
    PeerLimit,
    Peers,
    PeersConnected,
    PeersFrom,
    PeersGettingFromUs,
    PeersSendingToUs,
    PercentComplete,
    PercentDone,
    Pieces,
    PieceCount,
    PieceSize,
    Priorities,
    PrimaryMimeType,
    QueuePosition,
    RateDownload,
    RateUpload,
    RecheckProgress,
    SecondsDownloading,
    SecondsSeeding,
    SeedIdleLimit,
    SeedIdleMode,
    SeedRatioLimit,
    SeedRatioMode,
    SequentialDownload,
    SizeWhenDone,
    StartDate,
    Status,
    Trackers,
    TrackerList,
    TrackerStats,
    TotalSize,
    TorrentFile,
    UploadedEver,
    UploadLimit,
    UploadLimited,
    UploadRatio,
    Wanted,
    Webseeds,
    WebseedsSendingToUs,
}

impl TorrentGetKey {
    /// The key's name on the wire.
    pub open spec fn spec_wire_name(self) -> Seq<char> {
        match self {
            TorrentGetKey::ActivityDate => "activityDate"@,
            TorrentGetKey::AddedDate => "addedDate"@,
            TorrentGetKey::Availability => "availability"@,
            TorrentGetKey::BandwidthPriority => "bandwidthPriority"@,
            TorrentGetKey::Comment => "comment"@,
            TorrentGetKey::CorruptEver => "corruptEver"@,
            TorrentGetKey::Creator => "creator"@,
            TorrentGetKey::DateCreated => "dateCreated"@,
            TorrentGetKey::DesiredAvailable => "desiredAvailable"@,
            TorrentGetKey::DoneDate => "doneDate"@,
            TorrentGetKey::DownloadDir => "downloadDir"@,
            TorrentGetKey::DownloadedEver => "downloadedEver"@,
            TorrentGetKey::DownloadLimit => "downloadLimit"@,
            TorrentGetKey::DownloadLimited => "downloadLimited"@,
            TorrentGetKey::EditDate => "editDate"@,
            TorrentGetKey::Error => "error"@,
            TorrentGetKey::ErrorString => "errorString"@,
            TorrentGetKey::Eta => "eta"@,
            TorrentGetKey::EtaIdle => "etaIdle"@,
            TorrentGetKey::FileCount => "file-count"@,
            TorrentGetKey::Files => "files"@,
            TorrentGetKey::FileStats => "fileStats"@,
            TorrentGetKey::Group => "group"@,
            TorrentGetKey::HashString => "hashString"@,
            TorrentGetKey::HaveUnchecked => "haveUnchecked"@,
            TorrentGetKey::HaveValid => "haveValid"@,
            TorrentGetKey::HonorsSessionLimits => "honorsSessionLimits"@,
            TorrentGetKey::Id => "id"@,
            TorrentGetKey::IsFinished => "isFinished"@,
            TorrentGetKey::IsPrivate => "isPrivate"@,
            TorrentGetKey::IsStalled => "isStalled"@,
            TorrentGetKey::Labels => "labels"@,
            TorrentGetKey::LeftUntilDone => "leftUntilDone"@,
            TorrentGetKey::MagnetLink => "magnetLink"@,
            TorrentGetKey::ManualAnnounceTime => "manualAnnounceTime"@,
            TorrentGetKey::MaxConnectedPeers => "maxConnectedPeers"@,
            TorrentGetKey::MetadataPercentComplete => "metadataPercentComplete"@,
            TorrentGetKey::Name => "name"@,
            TorrentGetKey::PeerLimit => "peer-limit"@,
            TorrentGetKey::Peers => "peers"@,
            TorrentGetKey::PeersConnected => "peersConnected"@,
            TorrentGetKey::PeersFrom => "peersFrom"@,
            TorrentGetKey::PeersGettingFromUs => "peersGettingFromUs"@,
            TorrentGetKey::PeersSendingToUs => "peersSendingToUs"@,
            TorrentGetKey::PercentComplete => "percentComplete"@,
            TorrentGetKey::PercentDone => "percentDone"@,
            TorrentGetKey::Pieces => "pieces"@,
            TorrentGetKey::PieceCount => "pieceCount"@,
            TorrentGetKey::PieceSize => "pieceSize"@,
            TorrentGetKey::Priorities => "priorities"@,
            TorrentGetKey::PrimaryMimeType => "primary-mime-type"@,
            TorrentGetKey::QueuePosition => "queuePosition"@,
            TorrentGetKey::RateDownload => "rateDownload"@,
            TorrentGetKey::RateUpload => "rateUpload"@,
            TorrentGetKey::RecheckProgress => "recheckProgress"@,
            TorrentGetKey::SecondsDownloading => "secondsDownloading"@,
            TorrentGetKey::SecondsSeeding => "secondsSeeding"@,
            TorrentGetKey::SeedIdleLimit => "seedIdleLimit"@,
            TorrentGetKey::SeedIdleMode => "seedIdleMode"@,
            TorrentGetKey::SeedRatioLimit => "seedRatioLimit"@,
            TorrentGetKey::SeedRatioMode => "seedRatioMode"@,
            TorrentGetKey::SequentialDownload => "sequentialDownload"@,
            TorrentGetKey::SizeWhenDone => "sizeWhenDone"@,
            TorrentGetKey::StartDate => "startDate"@,
            TorrentGetKey::Status => "status"@,
            TorrentGetKey::Trackers => "trackers"@,
            TorrentGetKey::TrackerList => "trackerList"@,
            TorrentGetKey::TrackerStats => "trackerStats"@,
            TorrentGetKey::TotalSize => "totalSize"@,
            TorrentGetKey::TorrentFile => "torrentFile"@,
            TorrentGetKey::UploadedEver => "uploadedEver"@,
            TorrentGetKey::UploadLimit => "uploadLimit"@,
            TorrentGetKey::UploadLimited => "uploadLimited"@,
            TorrentGetKey::UploadRatio => "uploadRatio"@,
            TorrentGetKey::Wanted => "wanted"@,
            TorrentGetKey::Webseeds => "webseeds"@,
            TorrentGetKey::WebseedsSendingToUs => "webseedsSendingToUs"@,
        }
    }

    /// The key's name on the wire.
    pub fn wire_name(&self) -> (r: &'static str)
        ensures
            r@ == self.spec_wire_name(),
    {
        match self {
            TorrentGetKey::ActivityDate => "activityDate",
            TorrentGetKey::AddedDate => "addedDate",
            TorrentGetKey::Availability => "availability",
            TorrentGetKey::BandwidthPriority => "bandwidthPriority",
            TorrentGetKey::Comment => "comment",
            TorrentGetKey::CorruptEver => "corruptEver",
            TorrentGetKey::Creator => "creator",
            TorrentGetKey::DateCreated => "dateCreated",
            TorrentGetKey::DesiredAvailable => "desiredAvailable",
            TorrentGetKey::DoneDate => "doneDate",
            TorrentGetKey::DownloadDir => "downloadDir",
            TorrentGetKey::DownloadedEver => "downloadedEver",
            TorrentGetKey::DownloadLimit => "downloadLimit",
            TorrentGetKey::DownloadLimited => "downloadLimited",
            TorrentGetKey::EditDate => "editDate",
            TorrentGetKey::Error => "error",
            TorrentGetKey::ErrorString => "errorString",
            TorrentGetKey::Eta => "eta",
            TorrentGetKey::EtaIdle => "etaIdle",
            TorrentGetKey::FileCount => "file-count",
            TorrentGetKey::Files => "files",
            TorrentGetKey::FileStats => "fileStats",
            TorrentGetKey::Group => "group",
            TorrentGetKey::HashString => "hashString",
            TorrentGetKey::HaveUnchecked => "haveUnchecked",
            TorrentGetKey::HaveValid => "haveValid",
            TorrentGetKey::HonorsSessionLimits => "honorsSessionLimits",
            TorrentGetKey::Id => "id",
            TorrentGetKey::IsFinished => "isFinished",
            TorrentGetKey::IsPrivate => "isPrivate",
            TorrentGetKey::IsStalled => "isStalled",
            TorrentGetKey::Labels => "labels",
            TorrentGetKey::LeftUntilDone => "leftUntilDone",
            TorrentGetKey::MagnetLink => "magnetLink",
            TorrentGetKey::ManualAnnounceTime => "manualAnnounceTime",
            TorrentGetKey::MaxConnectedPeers => "maxConnectedPeers",
            TorrentGetKey::MetadataPercentComplete => "metadataPercentComplete",
            TorrentGetKey::Name => "name",
            TorrentGetKey::PeerLimit => "peer-limit",
            TorrentGetKey::Peers => "peers",
            TorrentGetKey::PeersConnected => "peersConnected",
            TorrentGetKey::PeersFrom => "peersFrom",
            TorrentGetKey::PeersGettingFromUs => "peersGettingFromUs",
            TorrentGetKey::PeersSendingToUs => "peersSendingToUs",
            TorrentGetKey::PercentComplete => "percentComplete",
            TorrentGetKey::PercentDone => "percentDone",
            TorrentGetKey::Pieces => "pieces",
            TorrentGetKey::PieceCount => "pieceCount",
            TorrentGetKey::PieceSize => "pieceSize",
            TorrentGetKey::Priorities => "priorities",
            TorrentGetKey::PrimaryMimeType => "primary-mime-type",
            TorrentGetKey::QueuePosition => "queuePosition",
            TorrentGetKey::RateDownload => "rateDownload",
            TorrentGetKey::RateUpload => "rateUpload",
            TorrentGetKey::RecheckProgress => "recheckProgress",
            TorrentGetKey::SecondsDownloading => "secondsDownloading",
            TorrentGetKey::SecondsSeeding => "secondsSeeding",
            TorrentGetKey::SeedIdleLimit => "seedIdleLimit",
            TorrentGetKey::SeedIdleMode => "seedIdleMode",
            TorrentGetKey::SeedRatioLimit => "seedRatioLimit",
            TorrentGetKey::SeedRatioMode => "seedRatioMode",
            TorrentGetKey::SequentialDownload => "sequentialDownload",
            TorrentGetKey::SizeWhenDone => "sizeWhenDone",
            TorrentGetKey::StartDate => "startDate",
            TorrentGetKey::Status => "status",
            TorrentGetKey::Trackers => "trackers",
            TorrentGetKey::TrackerList => "trackerList",
            TorrentGetKey::TrackerStats => "trackerStats",
            TorrentGetKey::TotalSize => "totalSize",
            TorrentGetKey::TorrentFile => "torrentFile",
            TorrentGetKey::UploadedEver => "uploadedEver",
            TorrentGetKey::UploadLimit => "uploadLimit",
            TorrentGetKey::UploadLimited => "uploadLimited",
            TorrentGetKey::UploadRatio => "uploadRatio",
            TorrentGetKey::Wanted => "wanted",
            TorrentGetKey::Webseeds => "webseeds",
            TorrentGetKey::WebseedsSendingToUs => "webseedsSendingToUs",
        }
    }
}
/// A job's activity state, as the upstream's numeric `status` codes name it.
#[derive(Clone, Copy, Debug, Hash, Eq, PartialEq, Structural)]
pub enum TorrentStatus {
    /// Torrent is stopped.
    Stopped,
    /// Torrent is queued to verify local data.
    VerifyQueued,
    /// Torrent is verifying local data.
    Verifying,
    /// Torrent is queued to download.
    DownloadQueued,
    /// Torrent is downloading.
    Downloading,
    /// Torrent is queued to seed.
    SeedQueued,
    /// Torrent is seeding.
    Seeding,
}

impl TorrentStatus {
    /// The upstream's numeric code for this state.
    pub open spec fn spec_code(self) -> u64 {
        match self {
            TorrentStatus::Stopped => 0,
            TorrentStatus::VerifyQueued => 1,
            TorrentStatus::Verifying => 2,
            TorrentStatus::DownloadQueued => 3,
            TorrentStatus::Downloading => 4,
            TorrentStatus::SeedQueued => 5,
            TorrentStatus::Seeding => 6,
        }
    }

    /// The upstream's numeric code for this state.
    pub fn code(&self) -> (r: u64)
        ensures
            r == self.spec_code(),
    {
        match self {
            TorrentStatus::Stopped => 0,
            TorrentStatus::VerifyQueued => 1,
            TorrentStatus::Verifying => 2,
            TorrentStatus::DownloadQueued => 3,
            TorrentStatus::Downloading => 4,
            TorrentStatus::SeedQueued => 5,
            TorrentStatus::Seeding => 6,
        }
    }

    /// The state a numeric code names, if and only if the code is one the
    /// upstream defines.
    pub fn from_code(x: u64) -> (r: Result<Self, ()>)
        ensures
            x <= 6 ==> {
                &&& r matches Ok(s)
                &&& s.spec_code() == x
            },
            x > 6 ==> r is Err,
    {
        match x {
            0 => Ok(TorrentStatus::Stopped),
            1 => Ok(TorrentStatus::VerifyQueued),
            2 => Ok(TorrentStatus::Verifying),
            3 => Ok(TorrentStatus::DownloadQueued),
            4 => Ok(TorrentStatus::Downloading),
            5 => Ok(TorrentStatus::SeedQueued),
            6 => Ok(TorrentStatus::Seeding),
            _ => Err(()),
        }
    }

    /// The state's label in the user interface.
    pub open spec fn spec_ui(self) -> Seq<char> {
        match self {
            TorrentStatus::Stopped => "Paused"@,
            TorrentStatus::VerifyQueued => "Queued for verification"@,
            TorrentStatus::Verifying => "Verifying"@,
            TorrentStatus::DownloadQueued => "Queued for download"@,
            TorrentStatus::Downloading => "Downloading"@,
            TorrentStatus::SeedQueued => "Queued for seeding"@,
            TorrentStatus::Seeding => "Seeding"@,
        }
    }

    /// The state's label in the user interface.
    pub fn ui(&self) -> (r: &'static str)
        ensures
            r@ == self.spec_ui(),
    {
        match self {
            TorrentStatus::Stopped => "Paused",
            TorrentStatus::VerifyQueued => "Queued for verification",
            TorrentStatus::Verifying => "Verifying",
            TorrentStatus::DownloadQueued => "Queued for download",
            TorrentStatus::Downloading => "Downloading",
            TorrentStatus::SeedQueued => "Queued for seeding",
            TorrentStatus::Seeding => "Seeding",
        }
    }

    /// The state's short name, as templates write it.
    pub open spec fn spec_label(self) -> Seq<char> {
        match self {
            TorrentStatus::Stopped => "stopped"@,
            TorrentStatus::VerifyQueued => "verify-queued"@,
            TorrentStatus::Verifying => "verifying"@,
            TorrentStatus::DownloadQueued => "download-queued"@,
            TorrentStatus::Downloading => "downloading"@,
            TorrentStatus::SeedQueued => "seed-queued"@,
            TorrentStatus::Seeding => "seeding"@,
        }
    }

    /// The state's short name, as templates write it.
    pub fn label(&self) -> (r: &'static str)
        ensures
            r@ == self.spec_label(),
    {
        match self {
            TorrentStatus::Stopped => "stopped",
            TorrentStatus::VerifyQueued => "verify-queued",
            TorrentStatus::Verifying => "verifying",
            TorrentStatus::DownloadQueued => "download-queued",
            TorrentStatus::Downloading => "downloading",
            TorrentStatus::SeedQueued => "seed-queued",
            TorrentStatus::Seeding => "seeding",
        }
    }
}

/// One response from the upstream: its result word, its typed arguments,
/// and the request's tag echoed back.
#[derive(Clone, Debug)]
pub struct Response<T> {
    pub result: String,
    pub arguments: T,
    pub tag: Option<u32>,
}

impl<T> Response<T> {
    /// The upstream reports success through the result word alone, not the
    /// HTTP status: exactly the word `success` is a success.
    pub fn is_success(&self) -> (r: bool)
        ensures
            r == (self.result@ == "success"@),
    {
        let word = String::from_str("success");
        self.result.eq(&word)
    }
}

/// The arguments of a `torrent-add` response.
#[derive(Clone, Debug)]
pub struct TorrentAddResponse {
    pub added_or_duplicate: TorrentAddedOrDuplicate,
}

impl TorrentAddResponse {
    /// The hash of the job the add named, new or already present.
    pub open spec fn spec_hash_string(&self) -> Seq<char> {
        match self.added_or_duplicate {
            TorrentAddedOrDuplicate::TorrentAdded(ref x) => x.hash_string@,
            TorrentAddedOrDuplicate::TorrentDuplicate(ref x) => x.hash_string@,
        }
    }

    /// The hash of the job the add named, new or already present.
    pub fn hash_string(&self) -> (r: &str)
        ensures
            r@ == self.spec_hash_string(),
    {
        match &self.added_or_duplicate {
            TorrentAddedOrDuplicate::TorrentAdded(x) => x.hash_string.as_str(),
            TorrentAddedOrDuplicate::TorrentDuplicate(x) => x.hash_string.as_str(),
        }
    }
}

/// An add either created the job or found it already present.
#[derive(Clone, Debug)]
pub enum TorrentAddedOrDuplicate {
    TorrentAdded(TorrentAdded),
    TorrentDuplicate(TorrentDuplicate),
}

/// The record describing a freshly added job.
#[derive(Clone, Debug)]
pub struct TorrentAdded {
    pub hash_string: String,
    pub name: String,
    pub id: u32,
}

/// The record describing an already-present job.
#[derive(Clone, Debug)]
pub struct TorrentDuplicate {
    pub hash_string: String,
    pub name: String,
    pub id: u32,
}

} // verus!
