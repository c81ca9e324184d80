use vstd::prelude::*;

verus! {

/// Why a DXBC/DXIL payload could not be translated to SPIR-V.
#[derive(Debug, Clone, Copy, PartialEq, Eq)]
pub enum DxbcError {
    /// The payload holds no bytes.
    EmptyPayload,
    /// The `dxil-spirv` translator is not linked into this build.
    TranslatorNotLinked,
}

impl DxbcError {
    /// The human-readable message of the error.
    pub fn message(&self) -> (m: &'static str)
        ensures
            *self == DxbcError::EmptyPayload ==> m@ == "DXBC payload is empty."@,
            *self == DxbcError::TranslatorNotLinked
                ==> m@ == "DXBC to SPIR-V translation is not yet linked. Waiting for C++ build integration."@,
    {
        match self {
            DxbcError::EmptyPayload => "DXBC payload is empty.",
            DxbcError::TranslatorNotLinked => "DXBC to SPIR-V translation is not yet linked. Waiting for C++ build integration.",
        }
    }
}

/// Translates a raw DXBC or DXIL binary from a Unity AssetBundle into SPIR-V.
/// An empty payload is refused; any other payload is refused too, since no
/// translator is linked into this build.
pub fn translate_dxbc_to_spirv(dxbc_bytes: &[u8]) -> (r: Result<Vec<u8>, DxbcError>)
    ensures
        dxbc_bytes@.len() == 0 ==> r == Err::<Vec<u8>, DxbcError>(DxbcError::EmptyPayload),
        dxbc_bytes@.len() > 0 ==> r == Err::<Vec<u8>, DxbcError>(DxbcError::TranslatorNotLinked),
{
    if dxbc_bytes.len() == 0 {
        return Err(DxbcError::EmptyPayload);
    }
    Err(DxbcError::TranslatorNotLinked)
}

} // verus!
