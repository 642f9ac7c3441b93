use vstd::prelude::*;

verus! {

/// Numeric status returned by a module's `exec` export.
#[derive(Debug, Clone, Copy, PartialEq, Eq, Structural)]
pub enum WasmErrorCode {
    Success,
    ParseInputData,
    ParseSchema,
    SerializeOutput,
    OutputBufferTooSmall,
    ExecutionFailed,
    Unknown(i32),
}

/// The status that a raw return code stands for.
pub open spec fn status_of(code: i32) -> WasmErrorCode {
    if code == 0 {
        WasmErrorCode::Success
    } else if code == 1 {
        WasmErrorCode::ParseInputData
    } else if code == 2 {
        WasmErrorCode::ParseSchema
    } else if code == 3 {
        WasmErrorCode::SerializeOutput
    } else if code == 4 {
        WasmErrorCode::OutputBufferTooSmall
    } else if code == 5 {
        WasmErrorCode::ExecutionFailed
    } else {
        WasmErrorCode::Unknown(code)
    }
}

impl WasmErrorCode {
    /// The raw return code of a status.
    pub open spec fn spec_code(self) -> i32 {
        match self {
            WasmErrorCode::Success => 0,
            WasmErrorCode::ParseInputData => 1,
            WasmErrorCode::ParseSchema => 2,
            WasmErrorCode::SerializeOutput => 3,
            WasmErrorCode::OutputBufferTooSmall => 4,
            WasmErrorCode::ExecutionFailed => 5,
            WasmErrorCode::Unknown(c) => c,
        }
    }

    /// Creates a status from a raw return code.
    pub fn from_code(code: i32) -> (r: Self)
        ensures
            r == status_of(code),
            r.spec_code() == code,
    {
        match code {
            0 => WasmErrorCode::Success,
            1 => WasmErrorCode::ParseInputData,
            2 => WasmErrorCode::ParseSchema,
            3 => WasmErrorCode::SerializeOutput,
            4 => WasmErrorCode::OutputBufferTooSmall,
            5 => WasmErrorCode::ExecutionFailed,
            other => WasmErrorCode::Unknown(other),
        }
    }

    /// The raw return code of this status.
    pub fn code(&self) -> (r: i32)
        ensures
            r == self.spec_code(),
    {
        match self {
            WasmErrorCode::Success => 0,
            WasmErrorCode::ParseInputData => 1,
            WasmErrorCode::ParseSchema => 2,
            WasmErrorCode::SerializeOutput => 3,
            WasmErrorCode::OutputBufferTooSmall => 4,
            WasmErrorCode::ExecutionFailed => 5,
            WasmErrorCode::Unknown(c) => *c,
        }
    }

    /// What the status means, in words; an unknown code is reported beside it.
    pub fn message(&self) -> (r: &'static str)
        ensures
            r@ == match *self {
                WasmErrorCode::Success => "Success"@,
                WasmErrorCode::ParseInputData => "Failed to parse input data"@,
                WasmErrorCode::ParseSchema => "Failed to parse input schema"@,
                WasmErrorCode::SerializeOutput => "Failed to serialize output data"@,
                WasmErrorCode::OutputBufferTooSmall => "Output buffer too small"@,
                WasmErrorCode::ExecutionFailed => "Execution of WASM function failed"@,
                WasmErrorCode::Unknown(_) => "Unknown error code"@,
            },
    {
        match self {
            WasmErrorCode::Success => "Success",
            WasmErrorCode::ParseInputData => "Failed to parse input data",
            WasmErrorCode::ParseSchema => "Failed to parse input schema",
            WasmErrorCode::SerializeOutput => "Failed to serialize output data",
            WasmErrorCode::OutputBufferTooSmall => "Output buffer too small",
            WasmErrorCode::ExecutionFailed => "Execution of WASM function failed",
            WasmErrorCode::Unknown(_) => "Unknown error code",
        }
    }
}

impl From<i32> for WasmErrorCode {
    fn from(code: i32) -> (r: Self) {
        WasmErrorCode::from_code(code)
    }
}

impl vstd::std_specs::convert::FromSpecImpl<i32> for WasmErrorCode {
    open spec fn obeys_from_spec() -> bool {
        true
    }

    open spec fn from_spec(v: i32) -> Self {
        status_of(v)
    }
}

} // verus!
