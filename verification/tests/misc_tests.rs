use sonotxt::api::payments::DepositAddresses;
use sonotxt::api::payments::RotateAddressResponse;
use sonotxt::api::vault::default_content_type;
use sonotxt::error::ApiError;
use sonotxt::models::ProcessRequest;
use sonotxt::storage::StorageBackend;
use sonotxt::stripe::Currency;
use sonotxt::text::u64_to_string;

#[test]
fn currency_codes_and_symbols() {
    assert_eq!(Currency::Eur.as_str(), "eur");
    assert_eq!(Currency::Usd.as_str(), "usd");
    assert_eq!(Currency::Eur.symbol(), "\u{20ac}");
    assert_eq!(Currency::Usd.symbol(), "$");
    assert_eq!(Currency::default(), Currency::Eur);
}

#[test]
fn storage_backend_names() {
    assert_eq!(StorageBackend::from_name("ipfs"), StorageBackend::Ipfs);
    assert_eq!(StorageBackend::from_name("IPFS"), StorageBackend::Ipfs);
    assert_eq!(StorageBackend::from_name("minio"), StorageBackend::Minio);
    assert_eq!(StorageBackend::from_name(""), StorageBackend::Minio);
    assert_eq!(StorageBackend::from_name("s3"), StorageBackend::Minio);
}

#[test]
fn decimal_rendering_is_exact() {
    assert_eq!(u64_to_string(0), "0");
    assert_eq!(u64_to_string(7), "7");
    assert_eq!(u64_to_string(12345), "12345");
    assert_eq!(u64_to_string(u64::MAX), "18446744073709551615");
}

#[test]
fn default_upload_content_type() {
    assert_eq!(default_content_type(), "application/octet-stream");
}

#[test]
fn error_messages_render() {
    assert_eq!(ApiError::InvalidRequest("nope".to_owned()).message(), "nope");
    assert_eq!(ApiError::Unauthorized.message(), "Unauthorized");
    assert_eq!(ApiError::NotFound.message(), "Not found");
}

#[test]
fn api_shapes_carry_plain_values() {
    let req = ProcessRequest { url: "https://example.com".to_owned(), selector: None, voice: None };
    assert_eq!(req.url, "https://example.com");
    let addrs = DepositAddresses { polkadot_assethub: Some("1abc".to_owned()), penumbra: None };
    assert!(addrs.penumbra.is_none());
    let rot = RotateAddressResponse { new_address: "1abc".to_owned(), derivation_index: 2 };
    assert_eq!(rot.derivation_index, 2);
}
