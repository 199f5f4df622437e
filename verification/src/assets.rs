//! Vendored asset archives of an authoring configuration.

use vstd::prelude::*;

use crate::authoring;
use crate::prepare_error::StaticPrepareError;
use crate::selected_state;
use crate::selected_state::digits_of_digest;
use crate::text;
use crate::text::{concat2, concat3, concat4, concat5, text_equal};
use crate::transform::PrepareErrorModel;
use crate::transitions;
use crate::xz;
use crate::xz::decompress_xz;

verus! {

/// A declared asset; `T` is the type of text.
#[derive(Debug)]
pub struct AssetEntry<T = String> {
    pub name: T,
    /// The vendored payload in the pack.
    pub path: Option<T>,
    /// The digits of the payload's declared digest.
    pub sha256: Option<T>,
    pub format: T,
    /// The directory that the asset is put below.
    pub dst: T,
}

impl View for AssetEntry<String> {
    type V = AssetEntry<Seq<char>>;

    open spec fn view(&self) -> AssetEntry<Seq<char>> {
        AssetEntry {
            name: self.name@,
            path: transitions::optional_text(self.path),
            sha256: transitions::optional_text(self.sha256),
            format: self.format@,
            dst: self.dst@,
        }
    }
}

/// How the payload of an asset is packed.
#[derive(Debug, Clone, Copy, PartialEq, Eq, Structural)]
pub enum AssetFormat {
    Tar,
    TarXz,
}

/// The start of a message about an asset.
pub open spec fn about_asset(name: Seq<char>) -> Seq<char> {
    "asset `"@ + name + "`: "@
}

fn about(name: &str) -> (start: String)
    ensures
        start@ == about_asset(name@),
{
    concat3("asset `", name, "`: ")
}

/// The format of an asset whose payload was looked up, or why it cannot be deployed. The
/// payload must be vendored and captured, and have the declared digest; `payload` is the
/// digest of the captured payload.
pub open spec fn asset_format(asset: AssetEntry<Seq<char>>, payload: Option<Seq<char>>) -> Result<
    AssetFormat,
    PrepareErrorModel,
> {
    match asset.path {
        None => Err(
            authoring::invalid_config(
                about_asset(asset.name)
                    + "deployment requires a vendored `path` inside the pack (`url` is acquisition provenance only)"@,
            ),
        ),
        Some(path) => match payload {
            None => Err(
                authoring::invalid_config(
                    about_asset(asset.name) + "vendored payload not captured: "@ + path,
                ),
            ),
            Some(digest) => if asset.sha256 is Some && asset.sha256->0
                != selected_state::digest_digits(digest) {
                Err(
                    authoring::invalid_config(
                        about_asset(asset.name) + "vendored payload "@ + path + " has sha256 "@ + (
                        selected_state::digest_digits(digest) + ", declared "@ + asset.sha256->0),
                    ),
                )
            } else if asset.format == "tar"@ {
                Ok(AssetFormat::Tar)
            } else if asset.format == "tar-xz"@ {
                Ok(AssetFormat::TarXz)
            } else {
                Err(
                    authoring::invalid_config(
                        about_asset(asset.name) + "format `"@ + asset.format
                            + "` is not supported for deployment yet (supported: tar, tar-xz)"@,
                    ),
                )
            },
        },
    }
}

/// A format or a failure, as contracts speak of them.
pub open spec fn format_view(outcome: Result<AssetFormat, StaticPrepareError>) -> Result<
    AssetFormat,
    PrepareErrorModel,
> {
    match outcome {
        Ok(format) => Ok(format),
        Err(error) => Err(error@),
    }
}

/// Checks an asset, with the digest of its captured payload.
pub fn check_asset(asset: &AssetEntry, payload: &Option<String>) -> (checked: Result<
    AssetFormat,
    StaticPrepareError,
>)
    requires
        payload matches Some(digest) ==> selected_state::is_tagged(digest@),
    ensures
        format_view(checked) == asset_format(asset@, transitions::optional_text(*payload)),
{
    let start = about(asset.name.as_str());
    let path = match &asset.path {
        Some(path) => path.as_str(),
        None => {
            return Err(
                StaticPrepareError::InvalidConfig {
                    detail: concat2(
                        start.as_str(),
                        "deployment requires a vendored `path` inside the pack (`url` is acquisition provenance only)",
                    ),
                },
            );
        },
    };
    let digest = match payload {
        Some(digest) => digest.as_str(),
        None => {
            return Err(
                StaticPrepareError::InvalidConfig {
                    detail: concat3(start.as_str(), "vendored payload not captured: ", path),
                },
            );
        },
    };
    match &asset.sha256 {
        Some(declared) => {
            let actual = digits_of_digest(digest);
            if !text_equal(actual.as_str(), declared.as_str()) {
                let ending = concat3(actual.as_str(), ", declared ", declared.as_str());
                return Err(
                    StaticPrepareError::InvalidConfig {
                        detail: concat5(
                            start.as_str(),
                            "vendored payload ",
                            path,
                            " has sha256 ",
                            ending.as_str(),
                        ),
                    },
                );
            }
        },
        None => {},
    }
    if text_equal(asset.format.as_str(), "tar") {
        Ok(AssetFormat::Tar)
    } else if text_equal(asset.format.as_str(), "tar-xz") {
        Ok(AssetFormat::TarXz)
    } else {
        Err(
            StaticPrepareError::InvalidConfig {
                detail: concat4(
                    start.as_str(),
                    "format `",
                    asset.format.as_str(),
                    "` is not supported for deployment yet (supported: tar, tar-xz)",
                ),
            },
        )
    }
}

/// Unpacks the payload of an asset into its tar archive; `None` tells that the payload would
/// overflow the decoder.
pub fn unpack_asset(name: &str, format: AssetFormat, payload: Vec<u8>) -> (outcome: Option<
    Result<Vec<u8>, StaticPrepareError>,
>)
    ensures
        match format {
            AssetFormat::Tar => outcome matches Some(Ok(bytes)) && bytes@ == payload@,
            AssetFormat::TarXz => match outcome {
                None => xz::overflows_decoder(payload@),
                Some(unpacked) => !xz::overflows_decoder(payload@) && xz::bytes_view(unpacked)
                    == xz::settled(name@, xz::xz_output(payload@).0, xz::xz_output(payload@).1),
            },
        },
{
    match format {
        AssetFormat::Tar => Some(Ok(payload)),
        AssetFormat::TarXz => decompress_xz(name, payload.as_slice()),
    }
}

/// An asset that passes was vendored, captured, and has the declared digest.
pub proof fn lemma_only_declared_assets_pass(
    asset: AssetEntry<Seq<char>>,
    payload: Option<Seq<char>>,
)
    ensures
        asset_format(asset, payload) is Ok ==> {
            &&& asset.path is Some
            &&& payload is Some
            &&& asset.sha256 matches Some(declared) ==> declared == selected_state::digest_digits(
                payload->0,
            )
        },
{
}

/// An asset passes exactly where it is vendored, captured, has the declared digest where one is
/// declared, and is a tar archive; it is unpacked exactly where it is declared as compressed.
pub proof fn lemma_assets_pass_by_their_format(
    asset: AssetEntry<Seq<char>>,
    payload: Option<Seq<char>>,
)
    ensures
        asset_format(asset, payload) matches Ok(AssetFormat::Tar) <==> asset.path is Some
            && payload is Some && (asset.sha256 matches Some(declared) ==> declared
            == payload->0.skip("sha256-"@.len() as int)) && asset.format == "tar"@,
        asset_format(asset, payload) matches Ok(AssetFormat::TarXz) <==> asset.path is Some
            && payload is Some && (asset.sha256 matches Some(declared) ==> declared
            == payload->0.skip("sha256-"@.len() as int)) && asset.format == "tar-xz"@,
{
    reveal_strlit("tar");
    reveal_strlit("tar-xz");
    assert("tar"@.len() == 3 && "tar-xz"@.len() == 6);
}

} // verus!
