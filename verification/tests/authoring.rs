//! Destinations, symlinks, limits, overlays and assets of authoring configurations.

use malm_engine::assets::{check_asset, unpack_asset, AssetEntry, AssetFormat};
use malm_engine::authoring::{
    check_authoring_response_len, home_relative_destination, relative_symlink_target,
    reserve_authoring_artifact_bytes, target_goes_down,
};
use malm_engine::limits::{MAX_ARTIFACT_BLOB_BYTES, MAX_PREPARED_UNIQUE_ARTIFACT_BYTES};
use malm_engine::overlays::{
    locate_overlay, overlay_applied_findings, overlay_inputs, settle_overlay,
    IdentifiedDeclaration, OverlayDeclaration, OverlayReading,
};
use malm_engine::prepare_error::StaticPrepareError;
use malm_engine::xz::{
    decompress_xz, overflow_error, payload_overflows_decoder, settle_decompression,
};

#[test]
fn destinations_map_onto_the_home_authority() {
    assert_eq!(
        home_relative_destination("~/.config", "hypr/hyprland.lua").unwrap(),
        ".config/hypr/hyprland.lua"
    );
    assert_eq!(
        home_relative_destination("~/.config", "~/.bashrc").unwrap(),
        ".bashrc"
    );
    assert_eq!(home_relative_destination("~", "x/y").unwrap(), "x/y");
    assert!(home_relative_destination("/etc", "x").is_err());
    assert!(home_relative_destination("~/.config", "/abs").is_err());
}

#[test]
fn refused_destinations_are_quoted() {
    assert_eq!(
        home_relative_destination("~/.config", "/a\"b").unwrap_err().message(),
        "invalid rich config: unsupported output destination \"/a\\\"b\""
    );
    assert_eq!(
        home_relative_destination("/etc", "x").unwrap_err().message(),
        "invalid rich config: config target \"/etc\" must be `~` or `~/`-relative"
    );
    assert!(home_relative_destination("~", "~").is_err());
}

#[test]
fn symlink_targets_are_spelled_relative_to_the_link_parent() {
    assert_eq!(
        relative_symlink_target(
            ".config/btop/themes/current.theme",
            ".config/gnist/themes/current/btop.theme"
        ),
        "../../gnist/themes/current/btop.theme"
    );
    assert_eq!(relative_symlink_target("a/link", "a/target"), "target");
    assert_eq!(relative_symlink_target("link", "dir/target"), "dir/target");
}

#[test]
fn only_downward_targets_are_deployed() {
    assert!(target_goes_down("dir/target"));
    assert!(!target_goes_down("../target"));
    assert!(!target_goes_down("dir/./target"));
    assert!(!target_goes_down("dir//target"));
    assert!(!target_goes_down(""));
}

#[test]
fn component_response_and_authoring_aggregate_limits_accept_exact_boundaries() {
    assert_eq!(
        check_authoring_response_len(MAX_ARTIFACT_BLOB_BYTES as usize, "exact").unwrap(),
        MAX_ARTIFACT_BLOB_BYTES
    );
    assert!(
        check_authoring_response_len(MAX_ARTIFACT_BLOB_BYTES as usize + 1, "oversized").is_err()
    );

    let half = MAX_PREPARED_UNIQUE_ARTIFACT_BYTES / 2;
    let mut total = 0;
    reserve_authoring_artifact_bytes(&mut total, half as usize, "first").unwrap();
    reserve_authoring_artifact_bytes(
        &mut total,
        (MAX_PREPARED_UNIQUE_ARTIFACT_BYTES - half) as usize,
        "second",
    )
    .unwrap();
    assert_eq!(total, MAX_PREPARED_UNIQUE_ARTIFACT_BYTES);
    assert!(reserve_authoring_artifact_bytes(&mut total, 1, "third").is_err());
    assert_eq!(
        total,
        MAX_PREPARED_UNIQUE_ARTIFACT_BYTES,
        "a rejected response must not change the retained total"
    );
}

#[test]
fn oversized_outputs_are_told_with_their_size() {
    let error = check_authoring_response_len(MAX_ARTIFACT_BLOB_BYTES as usize + 1, "a/b");
    assert_eq!(
        error.unwrap_err().message(),
        "invalid rich config: authoring output \"a/b\" has 536870913 bytes; per-artifact limit is 536870912"
    );
}

fn declaration(path: &str, optional: bool) -> OverlayDeclaration {
    OverlayDeclaration { name: "local".to_owned(), path: path.to_owned(), optional }
}

#[test]
fn overlays_are_located_below_the_target_root() {
    let home = declaration("~/.config/local.kdl", true);
    assert_eq!(
        locate_overlay(&home, Some(b"/home/user")).unwrap(),
        b"/home/user/.config/local.kdl"
    );
    assert_eq!(
        locate_overlay(&home, None).unwrap_err().message(),
        "invalid rich config: overlay `local`: no target authority root to resolve ~/.config/local.kdl against"
    );
    let absolute = declaration("/etc/local.kdl", false);
    assert_eq!(locate_overlay(&absolute, None).unwrap(), b"/etc/local.kdl");
}

#[test]
fn overlays_are_applied_passed_over_or_refused() {
    let optional = declaration("/o", true);
    let required = declaration("/r", false);
    let missing = OverlayReading::NotFound;
    assert!(settle_overlay(&optional, b"/o", missing, "id").unwrap().is_none());
    assert_eq!(
        settle_overlay(&required, b"/r", OverlayReading::NotFound, "id").unwrap_err().message(),
        "invalid rich config: overlay `local`: required file /r is missing"
    );
    let failed = OverlayReading::Failed { detail: "denied".to_owned() };
    assert_eq!(
        settle_overlay(&optional, b"/o", failed, "id").unwrap_err().message(),
        "invalid rich config: overlay `local`: read /o: denied"
    );
    let read = OverlayReading::Read { digest: "sha256-1".to_owned() };
    let applied = settle_overlay(&required, b"/r", read, "sha256-2").unwrap().unwrap();
    let declared = vec![IdentifiedDeclaration {
        declaration: required,
        identity: "sha256-2".to_owned(),
    }];
    let applied = vec![applied];
    let inputs = overlay_inputs(&declared, &applied);
    let names: Vec<&str> = inputs.iter().map(|input| input.name.as_str()).collect();
    assert_eq!(
        names,
        ["overlay-declaration:local:req:/r", "overlay:local:bytes", "overlay:local:identity"]
    );
    assert_eq!(inputs[1].digest, "sha256-1");
    assert_eq!(inputs[2].digest, "sha256-2");
    let findings = overlay_applied_findings(&applied);
    assert_eq!(findings[0].code, "AUTHORING-OVERLAY-APPLIED");
    assert_eq!(
        findings[0].message,
        "machine-local overlay `local` applied from /r (sha256-1)"
    );
}

#[test]
fn overlay_identity_is_domain_separated() {
    let mut expected = b"malm-authoring-overlay-identity-v1\0".to_vec();
    expected.extend_from_slice(b"local\0/o");
    assert_eq!(declaration("/o", true).identity_preimage(), expected);
}

fn asset(path: Option<&str>, sha256: Option<&str>, format: &str) -> AssetEntry {
    AssetEntry {
        name: "icons".to_owned(),
        path: path.map(str::to_owned),
        sha256: sha256.map(str::to_owned),
        format: format.to_owned(),
        dst: "~/.icons".to_owned(),
    }
}

#[test]
fn assets_must_be_vendored_captured_and_as_declared() {
    let digest = Some("sha256-abc".to_owned());
    assert!(matches!(
        check_asset(&asset(Some("a.tar"), Some("abc"), "tar"), &digest),
        Ok(AssetFormat::Tar)
    ));
    assert!(matches!(
        check_asset(&asset(Some("a.tar"), None, "tar-xz"), &digest),
        Ok(AssetFormat::TarXz)
    ));
    for (entry, payload, expected) in [
        (
            asset(None, None, "tar"),
            &digest,
            "deployment requires a vendored `path` inside the pack (`url` is acquisition provenance only)",
        ),
        (asset(Some("a.tar"), None, "tar"), &None, "vendored payload not captured: a.tar"),
        (
            asset(Some("a.tar"), Some("abd"), "tar"),
            &digest,
            "vendored payload a.tar has sha256 abc, declared abd",
        ),
        (
            asset(Some("a.zip"), None, "zip"),
            &digest,
            "format `zip` is not supported for deployment yet (supported: tar, tar-xz)",
        ),
    ] {
        assert_eq!(
            check_asset(&entry, payload).unwrap_err().message(),
            format!("invalid rich config: asset `icons`: {expected}")
        );
    }
}

const HELLO_XZ: &[u8] = &[
    0xfd, 0x37, 0x7a, 0x58, 0x5a, 0x00, 0x00, 0x01, 0x69, 0x22, 0xde, 0x36, 0x02, 0x00, 0x21, 0x01,
    0x16, 0x00, 0x00, 0x00, 0x74, 0x2f, 0xe5, 0xa3, 0x01, 0x00, 0x04, 0x68, 0x65, 0x6c, 0x6c, 0x6f,
    0x00, 0x00, 0x00, 0x00, 0x86, 0xa6, 0x10, 0x36, 0x00, 0x01, 0x19, 0x05, 0xbc, 0xe8, 0xec, 0xcb,
    0x90, 0x42, 0x99, 0x0d, 0x01, 0x00, 0x00, 0x00, 0x00, 0x01, 0x59, 0x5a,
];

#[test]
fn xz_payloads_are_decompressed() {
    assert_eq!(decompress_xz("icons", HELLO_XZ).unwrap().unwrap(), b"hello");
    assert_eq!(
        unpack_asset("icons", AssetFormat::TarXz, HELLO_XZ.to_vec()).unwrap().unwrap(),
        b"hello"
    );
    assert_eq!(
        unpack_asset("icons", AssetFormat::Tar, HELLO_XZ.to_vec()).unwrap().unwrap(),
        HELLO_XZ
    );
    let error = decompress_xz("icons", b"not xz").unwrap().unwrap_err();
    assert!(matches!(&error, StaticPrepareError::InvalidConfig { .. }));
    assert!(error.message().starts_with("invalid rich config: asset `icons`: xz decompression failed: "));
}

/// Two blocks in one stream.
const BLOCKS_XZ: &[u8] = &[
    0xfd, 0x37, 0x7a, 0x58, 0x5a, 0x00, 0x00, 0x01, 0x69, 0x22, 0xde, 0x36, 0x02, 0x00,
    0x21, 0x01, 0x16, 0x00, 0x00, 0x00, 0x74, 0x2f, 0xe5, 0xa3, 0x01, 0x00, 0x05, 0x68,
    0x65, 0x6c, 0x6c, 0x6f, 0x20, 0x00, 0x00, 0x00, 0xf6, 0xf9, 0x81, 0xed, 0x02, 0x00,
    0x21, 0x01, 0x16, 0x00, 0x00, 0x00, 0x74, 0x2f, 0xe5, 0xa3, 0x01, 0x00, 0x04, 0x61,
    0x67, 0x61, 0x69, 0x6e, 0x00, 0x00, 0x00, 0x00, 0xfc, 0x5b, 0xa1, 0x93, 0x00, 0x02,
    0x1a, 0x06, 0x19, 0x05, 0x00, 0x00, 0xe3, 0xc0, 0x6a, 0xf4, 0x3e, 0x30, 0x0d, 0x8b,
    0x02, 0x00, 0x00, 0x00, 0x00, 0x01, 0x59, 0x5a,
];

/// A stream that stores zeros with an all-ones word behind them.
const STORED_XZ: &[u8] = &[
    0xfd, 0x37, 0x7a, 0x58, 0x5a, 0x00, 0x00, 0x01, 0x69, 0x22, 0xde, 0x36, 0x02, 0x00,
    0x21, 0x01, 0x16, 0x00, 0x00, 0x00, 0x74, 0x2f, 0xe5, 0xa3, 0x01, 0x00, 0x1f, 0x01,
    0x02, 0x03, 0x04, 0x05, 0x06, 0x07, 0x08, 0x09, 0x0a, 0x0b, 0x0c, 0x0d, 0x00, 0x00,
    0x00, 0x00, 0x00, 0x00, 0x00, 0x00, 0x00, 0x00, 0x00, 0x00, 0xff, 0xff, 0xff, 0xff,
    0x65, 0x6e, 0x64, 0x00, 0x07, 0xf9, 0x6b, 0x8b, 0x00, 0x01, 0x34, 0x20, 0x14, 0x66,
    0xc2, 0xa0, 0x90, 0x42, 0x99, 0x0d, 0x01, 0x00, 0x00, 0x00, 0x00, 0x01, 0x59, 0x5a,
];

/// A stream that stores what reads like an index with an all-ones word behind it.
const SPELLED_XZ: &[u8] = &[
    0xfd, 0x37, 0x7a, 0x58, 0x5a, 0x00, 0x00, 0x01, 0x69, 0x22, 0xde, 0x36, 0x02, 0x00,
    0x21, 0x01, 0x16, 0x00, 0x00, 0x00, 0x74, 0x2f, 0xe5, 0xa3, 0x01, 0x00, 0x1f, 0x01,
    0x02, 0x03, 0x04, 0x05, 0x06, 0x07, 0x08, 0x09, 0x0a, 0x0b, 0x0c, 0x0d, 0x00, 0x01,
    0x1c, 0x05, 0x09, 0x09, 0x09, 0x09, 0x09, 0x09, 0x09, 0x09, 0xff, 0xff, 0xff, 0xff,
    0x65, 0x6e, 0x64, 0x00, 0xb5, 0x03, 0x85, 0x6a, 0x00, 0x01, 0x34, 0x20, 0x14, 0x66,
    0xc2, 0xa0, 0x90, 0x42, 0x99, 0x0d, 0x01, 0x00, 0x00, 0x00, 0x00, 0x01, 0x59, 0x5a,
];

#[test]
fn payloads_that_would_overflow_the_decoder_are_told() {
    assert!(!payload_overflows_decoder(HELLO_XZ));
    let mut endless = HELLO_XZ.to_vec();
    let length = endless.len();
    for byte in &mut endless[length - 8..length - 4] {
        *byte = 0xff;
    }
    assert!(payload_overflows_decoder(&endless));
    assert!(decompress_xz("icons", &endless).is_none());
    assert_eq!(
        overflow_error("icons").message(),
        "invalid rich config: asset `icons`: xz decompression failed: xz error: the footer tells \
         of an index that is too large"
    );
    assert_eq!(decompress_xz("icons", BLOCKS_XZ).unwrap().unwrap(), b"hello again");
    let mut endless = BLOCKS_XZ.to_vec();
    let length = endless.len();
    endless[length - 8..length - 4].fill(0xff);
    assert!(payload_overflows_decoder(&endless));
    let stored = decompress_xz("icons", STORED_XZ).unwrap().unwrap();
    assert_eq!(stored.len(), 32);
    assert_eq!(stored[13..29], [0, 0, 0, 0, 0, 0, 0, 0, 0, 0, 0, 0, 255, 255, 255, 255]);
    assert!(!payload_overflows_decoder(SPELLED_XZ));
    let spelled = decompress_xz("icons", SPELLED_XZ).unwrap().unwrap();
    assert_eq!(spelled.len(), 32);
    assert_eq!(spelled[13..17], [0, 1, 28, 5]);
    assert_eq!(spelled[25..29], [255; 4]);
    let mut endless = SPELLED_XZ.to_vec();
    let length = endless.len();
    endless[length - 8..length - 4].fill(0xff);
    assert!(payload_overflows_decoder(&endless));
    let mut zeros = vec![0; 12];
    zeros.extend_from_slice(&[255; 4]);
    assert!(!payload_overflows_decoder(&zeros));
    assert!(decompress_xz("icons", &zeros).unwrap().is_err());
}

#[test]
fn failed_decompression_keeps_its_reason() {
    assert_eq!(
        settle_decompression("icons", b"ab".to_vec(), Some("xz error: broken".to_owned()))
            .unwrap_err()
            .message(),
        "invalid rich config: asset `icons`: xz decompression failed: xz error: broken"
    );
    assert_eq!(settle_decompression("icons", b"ab".to_vec(), None).unwrap(), b"ab");
}
