//! How the host announces itself on the local network.

use vstd::prelude::*;
use vstd::string::StringExecFns;

use crate::host::encoder;

verus! {

pub const SERVICE_TYPE: &'static str = "_eternaldisplay._udp.local.";

pub const INSTANCE_NAME: &'static str = "EternalMonitor";

/// The announcement is refreshed after so many seconds.
pub const RE_ADVERT_INTERVAL_SECS: u64 = 60;

/// How long the goodbye is given to reach the network, in milliseconds.
pub const GOODBYE_GRACE_MS: u64 = 300;

/// What an announcement says.
#[derive(Debug)]
pub struct Announcement {
    pub host_fqdn: String,
    pub instance_name: String,
    pub properties: Vec<(&'static str, &'static str)>,
}

/// The name of the machine, from the two places where it may stand.
pub fn hostname<'a>(computer_name: Option<&'a str>, host_name: Option<&'a str>) -> (name: Option<
    &'a str,
>)
    ensures
        name == (match computer_name {
            Some(n) => Some(n),
            None => host_name,
        }),
{
    match computer_name {
        Some(n) => Some(n),
        None => host_name,
    }
}

/// What is announced of a host: its name on the network, the name that users
/// see, the version of the program, the protocol and the platform.
pub fn announcement(host: Option<&str>, version: &'static str, windows: bool) -> (a: Announcement)
    ensures
        ({
            let name = match host {
                Some(h) => h@,
                None => "eternal-host"@,
            };
            &&& a.host_fqdn@ == name + ".local."@
            &&& a.instance_name@ == INSTANCE_NAME@ + " ("@ + name + ")"@
            &&& encoder::option_texts(a.properties@) == seq![
                ("version"@, version@),
                ("proto"@, "2"@),
                (
                    "platform"@,
                    if windows {
                        "windows"@
                    } else {
                        "other"@
                    },
                ),
            ]
        }),
{
    let host = match host {
        Some(h) => h,
        None => "eternal-host",
    };
    let mut host_fqdn = host.to_owned();
    host_fqdn.append(".local.");
    let mut instance_name = INSTANCE_NAME.to_owned();
    instance_name.append(" (");
    instance_name.append(host);
    instance_name.append(")");
    let mut properties: Vec<(&'static str, &'static str)> = Vec::new();
    properties.push(("version", version));
    properties.push(("proto", "2"));
    if windows {
        properties.push(("platform", "windows"));
    } else {
        properties.push(("platform", "other"));
    }
    assert(encoder::option_texts(properties@) =~= seq![
        ("version"@, version@),
        ("proto"@, "2"@),
        (
            "platform"@,
            if windows {
                "windows"@
            } else {
                "other"@
            },
        ),
    ]);
    Announcement { host_fqdn, instance_name, properties }
}

} // verus!
