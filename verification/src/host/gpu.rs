//! Which graphics adapter and which encoder the host uses.

use vstd::prelude::*;

use crate::text;
use crate::text::utf16_to_string;

verus! {

pub const VENDOR_NVIDIA: u32 = 0x10DE;

pub const VENDOR_AMD: u32 = 0x1002;

pub const VENDOR_INTEL: u32 = 0x8086;

/// The flag of adapters that are software.
pub const FLAG_SOFTWARE: u32 = 2;

/// The bytes of a megabyte of video memory.
pub const BYTES_PER_MB: u64 = 0x10_0000;

#[derive(Debug, Clone, Copy, PartialEq, Eq, Structural)]
pub enum GpuVendor {
    Nvidia,
    Amd,
    Intel,
    Unknown,
}

/// The vendor of an id.
pub open spec fn vendor_of(id: u32) -> GpuVendor {
    if id == VENDOR_NVIDIA {
        GpuVendor::Nvidia
    } else if id == VENDOR_AMD {
        GpuVendor::Amd
    } else if id == VENDOR_INTEL {
        GpuVendor::Intel
    } else {
        GpuVendor::Unknown
    }
}

impl GpuVendor {
    /// The vendor of an id.
    pub fn from_vendor_id(id: u32) -> (v: GpuVendor)
        ensures
            v == vendor_of(id),
    {
        if id == VENDOR_NVIDIA {
            GpuVendor::Nvidia
        } else if id == VENDOR_AMD {
            GpuVendor::Amd
        } else if id == VENDOR_INTEL {
            GpuVendor::Intel
        } else {
            GpuVendor::Unknown
        }
    }

    /// How the vendor is called.
    pub fn name(self) -> (s: &'static str)
        ensures
            s@ == (match self {
                GpuVendor::Nvidia => "NVIDIA"@,
                GpuVendor::Amd => "AMD"@,
                GpuVendor::Intel => "Intel"@,
                GpuVendor::Unknown => "Unknown"@,
            }),
    {
        match self {
            GpuVendor::Nvidia => "NVIDIA",
            GpuVendor::Amd => "AMD",
            GpuVendor::Intel => "Intel",
            GpuVendor::Unknown => "Unknown",
        }
    }
}

/// An encoder that a pipeline can use.
#[derive(Debug, Clone, Copy, PartialEq, Eq, Structural)]
pub enum EncoderKind {
    Nvenc,
    Amf,
    Qsv,
    VideoToolbox,
    X264,
}

impl EncoderKind {
    pub open spec fn spec_name(self) -> Seq<char> {
        match self {
            EncoderKind::Nvenc => "h264_nvenc"@,
            EncoderKind::Amf => "h264_amf"@,
            EncoderKind::Qsv => "h264_qsv"@,
            EncoderKind::VideoToolbox => "h264_videotoolbox"@,
            EncoderKind::X264 => "libx264"@,
        }
    }

    pub open spec fn spec_display(self) -> Seq<char> {
        match self {
            EncoderKind::Nvenc => "H.264 (NVENC)"@,
            EncoderKind::Amf => "H.264 (AMF)"@,
            EncoderKind::Qsv => "H.264 (QSV)"@,
            EncoderKind::VideoToolbox => "H.264 (VideoToolbox)"@,
            EncoderKind::X264 => "H.264 (x264)"@,
        }
    }

    /// The name by which the encoder is opened.
    pub fn name(self) -> (s: &'static str)
        ensures
            s@ == self.spec_name(),
    {
        match self {
            EncoderKind::Nvenc => "h264_nvenc",
            EncoderKind::Amf => "h264_amf",
            EncoderKind::Qsv => "h264_qsv",
            EncoderKind::VideoToolbox => "h264_videotoolbox",
            EncoderKind::X264 => "libx264",
        }
    }

    /// The name that the user sees.
    pub fn display(self) -> (s: &'static str)
        ensures
            s@ == self.spec_display(),
    {
        match self {
            EncoderKind::Nvenc => "H.264 (NVENC)",
            EncoderKind::Amf => "H.264 (AMF)",
            EncoderKind::Qsv => "H.264 (QSV)",
            EncoderKind::VideoToolbox => "H.264 (VideoToolbox)",
            EncoderKind::X264 => "H.264 (x264)",
        }
    }
}

/// Which encoders the codec library was built with.
#[derive(Debug, Clone, Copy, PartialEq, Eq, Structural)]
pub struct EncoderSet {
    pub nvenc: bool,
    pub amf: bool,
    pub qsv: bool,
    pub videotoolbox: bool,
    pub x264: bool,
}

impl EncoderSet {
    pub open spec fn holds(self, kind: EncoderKind) -> bool {
        match kind {
            EncoderKind::Nvenc => self.nvenc,
            EncoderKind::Amf => self.amf,
            EncoderKind::Qsv => self.qsv,
            EncoderKind::VideoToolbox => self.videotoolbox,
            EncoderKind::X264 => self.x264,
        }
    }

    fn has(self, kind: EncoderKind) -> (b: bool)
        ensures
            b == self.holds(kind),
    {
        match kind {
            EncoderKind::Nvenc => self.nvenc,
            EncoderKind::Amf => self.amf,
            EncoderKind::Qsv => self.qsv,
            EncoderKind::VideoToolbox => self.videotoolbox,
            EncoderKind::X264 => self.x264,
        }
    }
}

/// The encoders to try for a vendor, in order: its own first, software last.
pub open spec fn chain(vendor: GpuVendor) -> Seq<EncoderKind> {
    match vendor {
        GpuVendor::Amd => seq![
            EncoderKind::Amf,
            EncoderKind::Nvenc,
            EncoderKind::Qsv,
            EncoderKind::X264,
        ],
        GpuVendor::Intel => seq![
            EncoderKind::Qsv,
            EncoderKind::Nvenc,
            EncoderKind::Amf,
            EncoderKind::X264,
        ],
        _ => seq![EncoderKind::Nvenc, EncoderKind::Amf, EncoderKind::Qsv, EncoderKind::X264],
    }
}

/// The encoders to try where there is no adapter to ask.
pub open spec fn portable_chain() -> Seq<EncoderKind> {
    seq![EncoderKind::VideoToolbox, EncoderKind::X264]
}

/// The first encoder of a chain that exists.
pub open spec fn first_of(chain: Seq<EncoderKind>, available: EncoderSet) -> Option<EncoderKind>
    decreases chain.len(),
{
    if chain.len() == 0 {
        None
    } else if available.holds(chain[0]) {
        Some(chain[0])
    } else {
        first_of(chain.skip(1), available)
    }
}

fn first_available(chain: &[EncoderKind], available: EncoderSet) -> (k: Option<EncoderKind>)
    ensures
        k == first_of(chain@, available),
{
    let mut i: usize = 0;
    assert(chain@.skip(0) =~= chain@);
    while i < chain.len()
        invariant
            i <= chain@.len(),
            first_of(chain@.skip(i as int), available) == first_of(chain@, available),
        decreases chain@.len() - i,
    {
        assert(chain@.skip(i as int)[0] == chain@[i as int]);
        assert(chain@.skip(i as int).skip(1) =~= chain@.skip(i + 1));
        if available.has(chain[i]) {
            return Some(chain[i]);
        }
        i += 1;
    }
    None
}

/// The encoder of a vendor: the first of its chain that exists, and software
/// where none does.
pub open spec fn encoder_of(vendor: GpuVendor, available: EncoderSet) -> EncoderKind {
    match first_of(chain(vendor), available) {
        Some(kind) => kind,
        None => EncoderKind::X264,
    }
}

/// Walks the chain of a vendor and returns the first encoder that exists.
pub fn resolve_encoder(vendor: GpuVendor, available: EncoderSet) -> (kind: EncoderKind)
    ensures
        kind == encoder_of(vendor, available),
{
    let chain: [EncoderKind; 4] = match vendor {
        GpuVendor::Amd => [
            EncoderKind::Amf,
            EncoderKind::Nvenc,
            EncoderKind::Qsv,
            EncoderKind::X264,
        ],
        GpuVendor::Intel => [
            EncoderKind::Qsv,
            EncoderKind::Nvenc,
            EncoderKind::Amf,
            EncoderKind::X264,
        ],
        _ => [EncoderKind::Nvenc, EncoderKind::Amf, EncoderKind::Qsv, EncoderKind::X264],
    };
    assert(chain@ =~= self::chain(vendor));
    match first_available(chain.as_slice(), available) {
        Some(kind) => kind,
        None => EncoderKind::X264,
    }
}

/// An adapter as the display system describes it.
#[derive(Debug)]
pub struct AdapterDesc {
    /// The name, ended by a zero.
    pub description: Vec<u16>,
    pub vendor_id: u32,
    pub dedicated_video_memory: u64,
    pub flags: u32,
}

/// Whether an adapter is software.
pub open spec fn is_software(a: AdapterDesc) -> bool {
    a.flags & FLAG_SOFTWARE != 0
}

/// The video memory of an adapter in whole megabytes.
pub open spec fn vram_mb(a: AdapterDesc) -> u64 {
    a.dedicated_video_memory / BYTES_PER_MB
}

/// Whether `best` is the adapter of the first `n` to use: a real one, with more
/// memory than all real ones before it and at least as much as all after it.
pub open spec fn is_best(adapters: Seq<AdapterDesc>, n: int, best: int) -> bool {
    &&& 0 <= best < n
    &&& !is_software(adapters[best])
    &&& forall|i: int|
        0 <= i < n && !is_software(#[trigger] adapters[i]) ==> {
            &&& vram_mb(adapters[i]) <= vram_mb(adapters[best])
            &&& i < best ==> vram_mb(adapters[i]) < vram_mb(adapters[best])
        }
}

/// The adapter to use; none where all are software.
pub fn best_adapter(adapters: &[AdapterDesc]) -> (r: Option<usize>)
    ensures
        match r {
            Some(best) => is_best(adapters@, adapters@.len() as int, best as int),
            None => forall|i: int| 0 <= i < adapters@.len() ==> is_software(#[trigger] adapters@[i]),
        },
{
    let mut best: Option<usize> = None;
    let mut i: usize = 0;
    while i < adapters.len()
        invariant
            i <= adapters@.len(),
            match best {
                Some(b) => is_best(adapters@, i as int, b as int),
                None => forall|k: int| 0 <= k < i ==> is_software(#[trigger] adapters@[k]),
            },
        decreases adapters@.len() - i,
    {
        if adapters[i].flags & FLAG_SOFTWARE == 0 {
            let mb: u64 = adapters[i].dedicated_video_memory / BYTES_PER_MB;
            let better = match best {
                None => true,
                Some(b) => mb > adapters[b].dedicated_video_memory / BYTES_PER_MB,
            };
            if better {
                best = Some(i);
            }
        }
        i += 1;
    }
    best
}

/// The adapter and the encoder that the host uses.
#[derive(Debug, Clone)]
pub struct GpuInfo {
    pub vendor: GpuVendor,
    pub name: String,
    pub adapter_index: u32,
    pub dedicated_vram_mb: u64,
    pub encoder_name: String,
    pub codec_display_name: String,
}

/// [`GpuInfo`] with its names as sequences of characters.
#[verifier::ext_equal]
pub struct GpuView {
    pub vendor: GpuVendor,
    pub name: Seq<char>,
    pub adapter_index: u32,
    pub dedicated_vram_mb: u64,
    pub encoder_name: Seq<char>,
    pub codec_display_name: Seq<char>,
}

impl View for GpuInfo {
    type V = GpuView;

    open spec fn view(&self) -> GpuView {
        GpuView {
            vendor: self.vendor,
            name: self.name@,
            adapter_index: self.adapter_index,
            dedicated_vram_mb: self.dedicated_vram_mb,
            encoder_name: self.encoder_name@,
            codec_display_name: self.codec_display_name@,
        }
    }
}

/// What is used where no adapter can be.
pub open spec fn software() -> GpuView {
    GpuView {
        vendor: GpuVendor::Unknown,
        name: "Software"@,
        adapter_index: 0,
        dedicated_vram_mb: 0,
        encoder_name: "libx264"@,
        codec_display_name: "H.264 (x264)"@,
    }
}

/// What is used of an adapter.
pub open spec fn detected(adapter: AdapterDesc, index: u32, available: EncoderSet) -> GpuView {
    let vendor = vendor_of(adapter.vendor_id);
    GpuView {
        vendor,
        name: text::from_utf16(text::until_zero(adapter.description@)),
        adapter_index: index,
        dedicated_vram_mb: vram_mb(adapter),
        encoder_name: encoder_of(vendor, available).spec_name(),
        codec_display_name: encoder_of(vendor, available).spec_display(),
    }
}

impl GpuInfo {
    /// The best of the adapters and the encoder to go with it. Falls back to
    /// software where the adapters could not be listed, or none is real.
    pub fn detect(adapters: Option<&[AdapterDesc]>, available: EncoderSet) -> (info: GpuInfo)
        requires
            adapters matches Some(a) ==> a@.len() <= u32::MAX,
        ensures
            match adapters {
                Some(a) => {
                    ||| exists|best: int|
                        is_best(a@, a@.len() as int, best) && info@ == #[trigger] detected(
                            a@[best],
                            best as u32,
                            available,
                        )
                    ||| (forall|i: int| 0 <= i < a@.len() ==> is_software(#[trigger] a@[i]))
                        && info@ == software()
                },
                None => info@ == software(),
            },
    {
        if let Some(a) = adapters {
            if let Some(best) = best_adapter(a) {
                let vendor = GpuVendor::from_vendor_id(a[best].vendor_id);
                let kind = resolve_encoder(vendor, available);
                let info = GpuInfo {
                    vendor,
                    name: utf16_to_string(a[best].description.as_slice()),
                    adapter_index: best as u32,
                    dedicated_vram_mb: a[best].dedicated_video_memory / BYTES_PER_MB,
                    encoder_name: kind.name().to_owned(),
                    codec_display_name: kind.display().to_owned(),
                };
                assert(info@ == detected(a@[best as int], best as u32, available));
                return info;
            }
        }
        GpuInfo::software_fallback()
    }

    /// The encoder of a system whose adapters are not looked at.
    pub fn detect_portable(os: &str, available: EncoderSet) -> (info: GpuInfo)
        ensures
            info@ == (match first_of(portable_chain(), available) {
                Some(kind) => GpuView {
                    name: os@,
                    encoder_name: kind.spec_name(),
                    codec_display_name: kind.spec_display(),
                    ..software()
                },
                None => software(),
            }),
    {
        let chain: [EncoderKind; 2] = [EncoderKind::VideoToolbox, EncoderKind::X264];
        assert(chain@ =~= portable_chain());
        match first_available(chain.as_slice(), available) {
            Some(kind) => GpuInfo {
                vendor: GpuVendor::Unknown,
                name: os.to_owned(),
                adapter_index: 0,
                dedicated_vram_mb: 0,
                encoder_name: kind.name().to_owned(),
                codec_display_name: kind.display().to_owned(),
            },
            None => GpuInfo::software_fallback(),
        }
    }

    /// Encoding in software.
    pub fn software_fallback() -> (info: GpuInfo)
        ensures
            info@ == software(),
    {
        GpuInfo {
            vendor: GpuVendor::Unknown,
            name: "Software".to_owned(),
            adapter_index: 0,
            dedicated_vram_mb: 0,
            encoder_name: "libx264".to_owned(),
            codec_display_name: "H.264 (x264)".to_owned(),
        }
    }
}

/// There is one adapter to use at most: ties go to the first.
pub proof fn the_best_adapter_is_unique(adapters: Seq<AdapterDesc>, a: int, b: int)
    requires
        is_best(adapters, adapters.len() as int, a),
        is_best(adapters, adapters.len() as int, b),
    ensures
        a == b,
{
}

/// Whatever exists, an encoder that does is chosen; without any, software is.
pub proof fn chosen_encoders_exist(vendor: GpuVendor, available: EncoderSet)
    ensures
        available.x264 ==> available.holds(encoder_of(vendor, available)),
        !available.holds(encoder_of(vendor, available)) ==> encoder_of(vendor, available)
            == EncoderKind::X264,
{
    reveal_with_fuel(first_of, 5);
    let c = chain(vendor);
    assert(c.skip(1)[0] == c[1] && c.skip(1).skip(1)[0] == c[2] && c.skip(1).skip(1).skip(1)[0]
        == c[3]);
}

/// A vendor's own encoder is preferred to all others.
pub proof fn vendors_prefer_their_own(available: EncoderSet)
    ensures
        available.nvenc ==> encoder_of(GpuVendor::Nvidia, available) == EncoderKind::Nvenc,
        available.amf ==> encoder_of(GpuVendor::Amd, available) == EncoderKind::Amf,
        available.qsv ==> encoder_of(GpuVendor::Intel, available) == EncoderKind::Qsv,
{
}

/// Where a vendor's own encoder does not exist, the others are tried in a fixed
/// order: NVENC, AMF, QSV, and software last.
pub proof fn other_encoders_come_in_order(vendor: GpuVendor, available: EncoderSet)
    ensures
        ({
            let own = match vendor {
                GpuVendor::Amd => available.amf,
                GpuVendor::Intel => available.qsv,
                _ => false,
            };
            let kind = encoder_of(vendor, available);
            &&& !own && available.nvenc ==> kind == EncoderKind::Nvenc
            &&& !own && !available.nvenc && available.amf ==> kind == EncoderKind::Amf
            &&& !own && !available.nvenc && !available.amf && available.qsv ==> kind
                == EncoderKind::Qsv
            &&& !available.nvenc && !available.amf && !available.qsv ==> kind == EncoderKind::X264
            &&& kind != EncoderKind::VideoToolbox
        }),
{
    reveal_with_fuel(first_of, 5);
    let c = chain(vendor);
    assert(c.skip(1)[0] == c[1] && c.skip(1).skip(1)[0] == c[2] && c.skip(1).skip(1).skip(1)[0]
        == c[3]);
}

/// Without adapters to look at, the system's own encoder is used where it
/// exists, else software.
pub proof fn portable_encoders_come_in_order(available: EncoderSet)
    ensures
        first_of(portable_chain(), available) == (if available.videotoolbox {
            Some(EncoderKind::VideoToolbox)
        } else if available.x264 {
            Some(EncoderKind::X264)
        } else {
            None
        }),
{
    reveal_with_fuel(first_of, 3);
    let c = portable_chain();
    assert(c.skip(1)[0] == c[1]);
}

/// The adapter to use is a real one, and no real one has more video memory,
/// counted in whole megabytes; of those that have as much, it is the first.
pub proof fn the_best_adapter_has_the_most_memory(adapters: Seq<AdapterDesc>, best: int, i: int)
    requires
        is_best(adapters, adapters.len() as int, best),
        0 <= i < adapters.len(),
        adapters[i].flags & 2u32 == 0,
    ensures
        adapters[best].flags & 2u32 == 0,
        adapters[i].dedicated_video_memory / 0x10_0000 <= adapters[best].dedicated_video_memory
            / 0x10_0000,
        i < best ==> adapters[i].dedicated_video_memory / 0x10_0000
            < adapters[best].dedicated_video_memory / 0x10_0000,
{
    assert(!is_software(adapters[i]));
}

/// What is used of an adapter: its own name, its place among the adapters, its
/// memory in whole megabytes, and the encoder of its vendor, under the name by
/// which that is opened and the one that the user sees.
pub proof fn adapters_are_used_as_they_are(adapter: AdapterDesc, index: u32, available: EncoderSet)
    ensures
        ({
            let g = detected(adapter, index, available);
            &&& g.adapter_index == index
            &&& g.dedicated_vram_mb * 0x10_0000 <= adapter.dedicated_video_memory
                < (g.dedicated_vram_mb + 1) * 0x10_0000
            &&& adapter.vendor_id == 0x10DE <==> g.vendor == GpuVendor::Nvidia
            &&& adapter.vendor_id == 0x1002 <==> g.vendor == GpuVendor::Amd
            &&& adapter.vendor_id == 0x8086 <==> g.vendor == GpuVendor::Intel
            &&& available.nvenc && g.vendor == GpuVendor::Nvidia ==> g.encoder_name
                == "h264_nvenc"@ && g.codec_display_name == "H.264 (NVENC)"@
            &&& available.amf && g.vendor == GpuVendor::Amd ==> g.encoder_name == "h264_amf"@
                && g.codec_display_name == "H.264 (AMF)"@
            &&& available.qsv && g.vendor == GpuVendor::Intel ==> g.encoder_name == "h264_qsv"@
                && g.codec_display_name == "H.264 (QSV)"@
            &&& !available.nvenc && !available.amf && !available.qsv ==> g.encoder_name
                == "libx264"@ && g.codec_display_name == "H.264 (x264)"@
        }),
{
    vendors_prefer_their_own(available);
    other_encoders_come_in_order(vendor_of(adapter.vendor_id), available);
}

/// An adapter's name is the text of its description, up to the zero that ends
/// it.
pub proof fn adapters_keep_their_names(
    adapter: AdapterDesc,
    name: Seq<char>,
    behind: Seq<u16>,
    available: EncoderSet,
)
    requires
        adapter.description@ == text::to_utf16(name) + seq![0u16] + behind,
        forall|i: int|
            0 <= i < text::to_utf16(name).len() ==> #[trigger] text::to_utf16(name)[i] != 0,
    ensures
        detected(adapter, 0, available).name == name,
{
    text::a_zero_ends_text(text::to_utf16(name), behind);
    text::utf16_reads_back(name);
}

} // verus!
