//! The settings document of the virtual display driver, so that the managed
//! display offers the client's native resolution. The driver reads it when it
//! is enabled; what it does not name falls back to the driver's defaults.

use vstd::prelude::*;
use vstd::string::StringExecFns;

use crate::text;
use crate::text::push_decimal;

verus! {

/// A display mode for the mode list of the virtual display.
#[derive(Debug, Clone, Copy, PartialEq, Eq, Structural)]
pub struct VddMode {
    pub width: u32,
    pub height: u32,
    pub refresh_hz: u32,
}

/// The mode that every driver supports.
pub open spec fn safety_mode() -> VddMode {
    VddMode { width: 1920, height: 1080, refresh_hz: 60 }
}

/// The even number at or just below `n`: 4:2:0 encoders need even sizes.
pub open spec fn evened(n: u16) -> u32 {
    (n - n % 2) as u32
}

/// The native mode of a panel, in landscape: its long edge is the width. A
/// panel that names no refresh rate has 60 Hz.
pub open spec fn native_mode(w: u16, h: u16, hz: u8) -> VddMode {
    VddMode {
        width: evened(
            if w >= h {
                w
            } else {
                h
            },
        ),
        height: evened(
            if w >= h {
                h
            } else {
                w
            },
        ),
        refresh_hz: if hz == 0 {
            60
        } else {
            hz as u32
        },
    }
}

/// Whether a mode is large enough to be offered.
pub open spec fn offered(m: VddMode) -> bool {
    m.width >= 640 && m.height >= 480
}

/// The modes for a client, best first: the native mode, the same at 60 Hz, and
/// the safety mode, each once.
pub open spec fn modes(w: u16, h: u16, hz: u8) -> Seq<VddMode> {
    let native = native_mode(w, h, hz);
    let calm = VddMode { refresh_hz: 60, ..native };
    let lead = if !offered(native) {
        Seq::empty()
    } else if native.refresh_hz != 60 {
        seq![native, calm]
    } else {
        seq![native]
    };
    if lead.contains(safety_mode()) {
        lead
    } else {
        lead.push(safety_mode())
    }
}

/// The modes to offer for a client with the given native panel, best first.
pub fn modes_for_client(screen_px_w: u16, screen_px_h: u16, refresh_hz: u8) -> (v: Vec<VddMode>)
    ensures
        v@ == modes(screen_px_w, screen_px_h, refresh_hz),
{
    let (long, short): (u16, u16) = if screen_px_w >= screen_px_h {
        (screen_px_w, screen_px_h)
    } else {
        (screen_px_h, screen_px_w)
    };
    let native = VddMode {
        width: (long - long % 2) as u32,
        height: (short - short % 2) as u32,
        refresh_hz: if refresh_hz == 0 {
            60
        } else {
            refresh_hz as u32
        },
    };
    let safety = VddMode { width: 1920, height: 1080, refresh_hz: 60 };
    let mut v: Vec<VddMode> = Vec::new();
    let mut known = false;
    if native.width >= 640 && native.height >= 480 {
        v.push(native);
        if native.refresh_hz != 60 {
            v.push(VddMode { refresh_hz: 60, ..native });
        }
        known = native.width == 1920 && native.height == 1080;
    }
    proof {
        let lead = v@;
        assert(known ==> lead[lead.len() - 1] == safety);
        assert(lead.contains(safety) == known) by {
            if lead.contains(safety) {
                let i = choose|i: int| 0 <= i < lead.len() && lead[i] == safety;
            }
        }
        assert(lead =~= (if !offered(native) {
            Seq::empty()
        } else if native.refresh_hz != 60 {
            seq![native, VddMode { refresh_hz: 60, ..native }]
        } else {
            seq![native]
        }));
    }
    if !known {
        v.push(safety);
    }
    v
}

/// The entry of one mode.
pub open spec fn mode_text(m: VddMode) -> Seq<char> {
    "        <resolution>\n            <width>"@ + text::decimal(m.width as nat)
        + "</width>\n            <height>"@ + text::decimal(m.height as nat)
        + "</height>\n            <refresh_rate>"@ + text::decimal(m.refresh_hz as nat)
        + "</refresh_rate>\n        </resolution>\n"@
}

/// The entries of modes, one after the other.
pub open spec fn modes_text(modes: Seq<VddMode>) -> Seq<char>
    decreases modes.len(),
{
    if modes.len() == 0 {
        Seq::empty()
    } else {
        modes_text(modes.drop_last()) + mode_text(modes.last())
    }
}

/// The refresh rate of the whole display: that of the best mode.
pub open spec fn global_refresh(modes: Seq<VddMode>) -> u32 {
    if modes.len() == 0 {
        60
    } else {
        modes[0].refresh_hz
    }
}

/// The document in front of the modes.
pub open spec fn document_head(refresh_hz: u32) -> Seq<char> {
    "<?xml version=\"1.0\" encoding=\"utf-8\"?>\n<vdd_settings>\n    <monitors>\n        <count>1</count>\n    </monitors>\n    <global>\n        <g_refresh_rate>"@
        + text::decimal(refresh_hz as nat)
        + "</g_refresh_rate>\n    </global>\n    <resolutions>\n"@
}

/// The settings document.
pub open spec fn document(modes: Seq<VddMode>) -> Seq<char> {
    document_head(global_refresh(modes)) + modes_text(modes)
        + "    </resolutions>\n</vdd_settings>\n"@
}

fn push_mode(xml: &mut String, mode: VddMode)
    ensures
        final(xml)@ == old(xml)@ + mode_text(mode),
{
    xml.append("        <resolution>\n            <width>");
    push_decimal(xml, mode.width as u64);
    xml.append("</width>\n            <height>");
    push_decimal(xml, mode.height as u64);
    xml.append("</height>\n            <refresh_rate>");
    push_decimal(xml, mode.refresh_hz as u64);
    xml.append("</refresh_rate>\n        </resolution>\n");
    assert(xml@ =~= old(xml)@ + mode_text(mode));
}

/// Renders the settings document for some modes.
pub fn render(modes: &[VddMode]) -> (xml: String)
    ensures
        xml@ == document(modes@),
{
    let refresh: u32 = if modes.len() == 0 {
        60
    } else {
        modes[0].refresh_hz
    };
    let mut xml =
        "<?xml version=\"1.0\" encoding=\"utf-8\"?>\n<vdd_settings>\n    <monitors>\n        <count>1</count>\n    </monitors>\n    <global>\n        <g_refresh_rate>".to_owned();
    push_decimal(&mut xml, refresh as u64);
    xml.append("</g_refresh_rate>\n    </global>\n    <resolutions>\n");
    let ghost head = xml@;
    let mut i: usize = 0;
    assert(xml@ =~= head + modes_text(modes@.take(0)));
    while i < modes.len()
        invariant
            i <= modes@.len(),
            xml@ == head + modes_text(modes@.take(i as int)),
        decreases modes@.len() - i,
    {
        push_mode(&mut xml, modes[i]);
        assert(modes@.take(i + 1).drop_last() =~= modes@.take(i as int));
        assert(xml@ =~= head + modes_text(modes@.take(i + 1)));
        i += 1;
    }
    assert(modes@.take(i as int) =~= modes@);
    xml.append("    </resolutions>\n</vdd_settings>\n");
    xml
}

/// Whatever a client reports, the list offers the safety mode, holds no mode
/// twice, and every mode is even and large enough.
pub proof fn mode_lists_are_sound(w: u16, h: u16, hz: u8)
    ensures
        modes(w, h, hz).contains(safety_mode()),
        modes(w, h, hz).no_duplicates(),
        forall|i: int|
            0 <= i < modes(w, h, hz).len() ==> {
                let m = #[trigger] modes(w, h, hz)[i];
                offered(m) && m.width % 2 == 0 && m.height % 2 == 0
            },
        modes(w, h, hz).len() <= 3,
{
    let native = native_mode(w, h, hz);
    let m = modes(w, h, hz);
    let lead = if !offered(native) {
        Seq::empty()
    } else if native.refresh_hz != 60 {
        seq![native, VddMode { refresh_hz: 60, ..native }]
    } else {
        seq![native]
    };
    if !lead.contains(safety_mode()) {
        assert(m.last() == safety_mode());
        assert forall|i: int| 0 <= i < lead.len() implies lead[i] != safety_mode() by {
            if lead[i] == safety_mode() {
                assert(lead.contains(lead[i]));
            }
        }
    }
}

/// The native mode of a panel that is large enough comes first, in landscape.
pub proof fn native_mode_leads(w: u16, h: u16, hz: u8)
    requires
        offered(native_mode(w, h, hz)),
    ensures
        modes(w, h, hz)[0] == native_mode(w, h, hz),
        modes(w, h, hz)[0].width >= modes(w, h, hz)[0].height,
        modes(w, h, hz) == modes(h, w, hz),
{
}

/// The native mode is the panel's, turned to landscape and cut to even sizes,
/// at the refresh rate that it names. It leads the list where it is large
/// enough; behind it comes the same size at 60 Hz, where it has another rate.
pub proof fn modes_fit_the_panel(w: u16, h: u16, hz: u8)
    ensures
        ({
            let long = if w >= h {
                w
            } else {
                h
            };
            let short = if w >= h {
                h
            } else {
                w
            };
            let m = native_mode(w, h, hz);
            let list = modes(w, h, hz);
            let large = m.width >= 640 && m.height >= 480;
            &&& m.width <= long < m.width + 2 && m.width % 2 == 0
            &&& m.height <= short < m.height + 2 && m.height % 2 == 0
            &&& m.refresh_hz == (if hz == 0 {
                60
            } else {
                hz as int
            })
            &&& large ==> list[0] == m
            &&& large && m.refresh_hz != 60 ==> list.len() >= 2 && list[1].width == m.width
                && list[1].height == m.height && list[1].refresh_hz == 60
            &&& !large ==> list.len() == 1
            &&& list.last().refresh_hz == 60
        }),
{
    let native = native_mode(w, h, hz);
    if !offered(native) {
        assert(!Seq::<VddMode>::empty().contains(safety_mode()));
    }
}

/// The document lists its modes one after the other, in the order of the list.
pub proof fn documents_list_their_modes(a: Seq<VddMode>, m: VddMode, b: Seq<VddMode>)
    ensures
        modes_text(a + seq![m] + b) == modes_text(a) + mode_text(m) + modes_text(b),
    decreases b.len(),
{
    if b.len() == 0 {
        assert((a + seq![m] + b).drop_last() =~= a);
        assert(modes_text(a) + mode_text(m) + modes_text(b) =~= modes_text(a) + mode_text(m));
    } else {
        documents_list_their_modes(a, m, b.drop_last());
        assert((a + seq![m] + b).drop_last() =~= a + seq![m] + b.drop_last());
        assert(modes_text(a + seq![m] + b) =~= modes_text(a) + mode_text(m) + modes_text(b));
    }
}

/// The document holds the modes of its list and, in front of them, the refresh
/// rate of the first, or 60 where there is none.
pub proof fn documents_hold_their_modes(list: Seq<VddMode>)
    ensures
        document(list) == document_head(global_refresh(list)) + modes_text(list)
            + "    </resolutions>\n</vdd_settings>\n"@,
        list.len() > 0 ==> global_refresh(list) == list[0].refresh_hz,
        list.len() == 0 ==> global_refresh(list) == 60,
{
}

} // verus!
