use modality_probe::error::InitializationError;
use modality_probe::error::MergeError;
use modality_probe::error::ModalityProbeError;
use modality_probe::error::ProduceError;
use modality_probe::error::ReportError;
use modality_probe::error::StorageSetupError;
use modality_probe::InvalidEventId;
use modality_probe::InvalidProbeId;

#[test]
fn every_error_pipes_into_the_catch_all() {
    assert_eq!(
        ModalityProbeError::from(InvalidEventId),
        ModalityProbeError::InvalidEventId
    );
    assert_eq!(
        ModalityProbeError::from(InvalidProbeId),
        ModalityProbeError::InvalidProbeId
    );
    assert_eq!(
        ModalityProbeError::from(InitializationError::InvalidProbeId),
        ModalityProbeError::InitializationError(InitializationError::InvalidProbeId)
    );
    assert_eq!(
        ModalityProbeError::from(ProduceError::InsufficientDestinationSize),
        ModalityProbeError::ProduceError(ProduceError::InsufficientDestinationSize)
    );
    assert_eq!(
        ModalityProbeError::from(MergeError::InsufficientSourceSize),
        ModalityProbeError::MergeError(MergeError::InsufficientSourceSize)
    );
    assert_eq!(
        ModalityProbeError::from(ReportError::InsufficientDestinationSize),
        ModalityProbeError::ReportError(ReportError::InsufficientDestinationSize)
    );
    assert_eq!(
        ModalityProbeError::from(StorageSetupError::UnderMinimumAllowedSize),
        ModalityProbeError::InitializationError(InitializationError::StorageSetupError(
            StorageSetupError::UnderMinimumAllowedSize
        ))
    );
}

#[test]
fn errors_are_small_copyable_values() {
    let e = MergeError::ExceededAvailableClocks;
    let copied = e;
    assert_eq!(e, copied);
    let s = StorageSetupError::NullDestination;
    assert_ne!(s, StorageSetupError::ExceededMaximumAddressableSize);
}
