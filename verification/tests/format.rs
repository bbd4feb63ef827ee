use drm_fourcc::{DrmFourcc, DrmModifier};
use projectwc::backend::format::{
    codes_of, denylisted, negotiate_formats, Format, MODIFIER_I915_Y_TILED_CCS,
    MODIFIER_I915_Y_TILED_GEN12_MC_CCS, MODIFIER_I915_Y_TILED_GEN12_RC_CCS, MODIFIER_INVALID,
};

fn fmt(code: DrmFourcc, modifier: DrmModifier) -> Format {
    Format { code: code as u32, modifier: u64::from(modifier) }
}

#[test]
fn modifier_constants_match_the_fourcc_tables() {
    assert_eq!(MODIFIER_INVALID, u64::from(DrmModifier::Invalid));
    assert_eq!(MODIFIER_I915_Y_TILED_CCS, u64::from(DrmModifier::I915_y_tiled_ccs));
    assert_eq!(
        MODIFIER_I915_Y_TILED_GEN12_RC_CCS,
        u64::from(DrmModifier::I915_y_tiled_gen12_rc_ccs)
    );
    assert_eq!(
        MODIFIER_I915_Y_TILED_GEN12_MC_CCS,
        u64::from(DrmModifier::I915_y_tiled_gen12_mc_ccs)
    );
}

#[test]
fn denylist_holds_the_three_compressed_layouts_only() {
    assert!(denylisted(u64::from(DrmModifier::I915_y_tiled_ccs)));
    assert!(denylisted(u64::from(DrmModifier::I915_y_tiled_gen12_rc_ccs)));
    assert!(denylisted(u64::from(DrmModifier::I915_y_tiled_gen12_mc_ccs)));
    assert!(!denylisted(u64::from(DrmModifier::Linear)));
    assert!(!denylisted(u64::from(DrmModifier::Invalid)));
    assert!(!denylisted(u64::from(DrmModifier::I915_y_tiled)));
    assert!(!denylisted(u64::from(DrmModifier::I915_x_tiled)));
    assert!(!denylisted(0x0100_0000_0000_0005));
}

#[test]
fn negotiation_drops_denylisted_entries_and_keeps_the_order() {
    let caps = vec![
        fmt(DrmFourcc::Xrgb8888, DrmModifier::Linear),
        fmt(DrmFourcc::Xrgb8888, DrmModifier::I915_y_tiled_ccs),
        fmt(DrmFourcc::Argb8888, DrmModifier::Invalid),
        fmt(DrmFourcc::Argb8888, DrmModifier::I915_y_tiled_gen12_rc_ccs),
        fmt(DrmFourcc::Xrgb8888, DrmModifier::I915_x_tiled),
        fmt(DrmFourcc::Xrgb8888, DrmModifier::I915_y_tiled_gen12_mc_ccs),
        fmt(DrmFourcc::Xrgb8888, DrmModifier::Invalid),
    ];
    let r = negotiate_formats(&caps);
    assert_eq!(
        r.formats,
        vec![
            fmt(DrmFourcc::Xrgb8888, DrmModifier::Linear),
            fmt(DrmFourcc::Argb8888, DrmModifier::Invalid),
            fmt(DrmFourcc::Xrgb8888, DrmModifier::I915_x_tiled),
            fmt(DrmFourcc::Xrgb8888, DrmModifier::Invalid),
        ]
    );
    assert_eq!(
        r.implicit,
        vec![
            fmt(DrmFourcc::Argb8888, DrmModifier::Invalid),
            fmt(DrmFourcc::Xrgb8888, DrmModifier::Invalid),
        ]
    );
    assert_eq!(r.filtered, 3);
    assert_eq!(
        codes_of(&r.formats),
        vec![
            DrmFourcc::Xrgb8888 as u32,
            DrmFourcc::Argb8888 as u32,
            DrmFourcc::Xrgb8888 as u32,
            DrmFourcc::Xrgb8888 as u32,
        ]
    );
}

#[test]
fn negotiation_of_nothing_gives_nothing() {
    let r = negotiate_formats(&Vec::new());
    assert!(r.formats.is_empty());
    assert!(r.implicit.is_empty());
    assert_eq!(r.filtered, 0);
}

#[test]
fn negotiation_of_denylisted_entries_only_gives_nothing() {
    let caps = vec![
        fmt(DrmFourcc::Xrgb8888, DrmModifier::I915_y_tiled_ccs),
        fmt(DrmFourcc::Argb8888, DrmModifier::I915_y_tiled_gen12_mc_ccs),
    ];
    let r = negotiate_formats(&caps);
    assert!(r.formats.is_empty());
    assert!(r.implicit.is_empty());
    assert_eq!(r.filtered, 2);
}
