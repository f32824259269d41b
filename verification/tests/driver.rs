use diseq::devices::{CUSTOM_PROPERTY_LATENCY, CUSTOM_PROPERTY_NAME, DISEQ_UID};
use diseq::shared::{Header, MAGIC, NAME, VERSION};

/// The driver is compiled separately and loaded into coreaudiod, so a mismatch
/// here is not a build error: it is silence at runtime, which is the hardest
/// failure in this project to recognise. These are its declarations.
const DRIVER: &str = "
#define kDeviceUID          \"DisEQDevice\"
#define kCustomProperty_Name 'kdnm'
#define kCustomProperty_Latency 'kdlt'
#define kSharedName    \"/DisEQ.audio\"
#define kSharedMagic   0x4B44534E
#define kSharedVersion 1u

struct kd_SharedHeader {
    _Atomic uint32_t magic;
    _Atomic uint32_t version;
    _Atomic uint32_t channels;
    _Atomic uint32_t capacityFrames;
    _Atomic uint64_t sampleRateBits;
    _Atomic int64_t written;
    _Atomic uint32_t running;
    _Atomic uint32_t reserved;
};
";

#[test]
fn the_driver_uid_is_the_one_the_c_source_publishes() {
    // Cheap guard against the two drifting apart in a rename.
    assert!(
        DRIVER.contains(&format!("#define kDeviceUID          \"{DISEQ_UID}\"")),
        "the driver no longer publishes {DISEQ_UID}"
    );
}

#[test]
fn the_custom_name_selector_matches_the_driver() {
    let fourcc = String::from_utf8(CUSTOM_PROPERTY_NAME.to_be_bytes().to_vec()).unwrap();
    assert!(
        DRIVER.contains(&format!("#define kCustomProperty_Name '{fourcc}'")),
        "the driver no longer uses '{fourcc}' for the name property"
    );
}

#[test]
fn the_custom_latency_selector_matches_the_driver() {
    let fourcc = String::from_utf8(CUSTOM_PROPERTY_LATENCY.to_be_bytes().to_vec()).unwrap();
    assert!(
        DRIVER.contains(&format!("#define kCustomProperty_Latency '{fourcc}'")),
        "the driver no longer uses '{fourcc}' for the latency property"
    );
}

#[test]
fn the_segment_name_is_the_one_the_driver_creates() {
    assert!(
        DRIVER.contains(&format!("#define kSharedName    \"{NAME}\"")),
        "the driver no longer creates {NAME}"
    );
}

#[test]
fn the_magic_is_the_one_the_driver_publishes() {
    assert!(
        DRIVER.contains(&format!("#define kSharedMagic   0x{MAGIC:X}")),
        "the driver no longer publishes magic 0x{MAGIC:X}"
    );
}

#[test]
fn the_version_is_the_one_the_driver_publishes() {
    assert!(
        DRIVER.contains(&format!("#define kSharedVersion {VERSION}u")),
        "the driver no longer publishes version {VERSION}"
    );
}

#[test]
fn the_header_matches_the_c_struct_field_for_field() {
    // Same order, same widths: a field inserted on one side alone silently
    // shifts every field after it.
    let c_fields: Vec<&str> = DRIVER
        .split("struct kd_SharedHeader {")
        .nth(1)
        .expect("the driver still declares kd_SharedHeader")
        .split('}')
        .next()
        .unwrap()
        .lines()
        .filter_map(|line| line.trim().strip_prefix("_Atomic "))
        .filter_map(|line| line.strip_suffix(';'))
        .collect();

    assert_eq!(
        c_fields,
        vec![
            "uint32_t magic",
            "uint32_t version",
            "uint32_t channels",
            "uint32_t capacityFrames",
            "uint64_t sampleRateBits",
            "int64_t written",
            "uint32_t running",
            "uint32_t reserved",
        ]
    );
    assert_eq!(std::mem::size_of::<Header>(), 4 * 4 + 8 + 8 + 4 + 4);
}
