//! The settings document of the virtual display driver.

use eternal_monitor::host::vdd_settings::{modes_for_client, render, VddMode};

#[test]
fn ipad_portrait_panel_becomes_landscape_lead_mode() {
    // iPad Pro 11" M4: 1668x2420 portrait native, 120 Hz.
    let modes = modes_for_client(1668, 2420, 120);
    assert_eq!(
        modes[0],
        VddMode {
            width: 2420,
            height: 1668,
            refresh_hz: 120
        }
    );
    assert_eq!(
        modes[1],
        VddMode {
            width: 2420,
            height: 1668,
            refresh_hz: 60
        },
        "a 60 Hz variant backs up high-refresh panels"
    );
    assert_eq!(
        modes[2],
        VddMode {
            width: 1920,
            height: 1080,
            refresh_hz: 60
        }
    );
}

#[test]
fn odd_dimensions_are_evened_for_420_encoders() {
    let modes = modes_for_client(1667, 2421, 60);
    assert_eq!(modes[0].width, 2420);
    assert_eq!(modes[0].height, 1666);
}

#[test]
fn nonsense_panels_still_yield_the_safety_mode() {
    let modes = modes_for_client(0, 0, 0);
    assert_eq!(
        modes,
        vec![VddMode {
            width: 1920,
            height: 1080,
            refresh_hz: 60
        }]
    );
}

#[test]
fn render_produces_the_driver_schema() {
    let xml = render(&modes_for_client(1668, 2420, 120));
    assert!(xml.starts_with("<?xml version=\"1.0\" encoding=\"utf-8\"?>"));
    assert!(xml.contains("<vdd_settings>"));
    assert!(xml.contains("<count>1</count>"));
    assert!(xml.contains("<g_refresh_rate>120</g_refresh_rate>"));
    assert!(xml.contains(
        "<width>2420</width>\n            <height>1668</height>\n            \
         <refresh_rate>120</refresh_rate>"
    ));
    assert!(xml.ends_with("</vdd_settings>\n"));
}
