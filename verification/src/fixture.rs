use vstd::prelude::*;

verus! {

/// One fixture dataset: a tagged union over scalar and sequence shapes,
/// generic over the numeric element type.
#[derive(Debug)]
pub enum Data<T> {
    /// The two scalar inputs of a frequency-bin computation.
    FftFreqVals { n: T, d: T },
    /// A pair of numeric sequences: magnitudes and phases.
    ComplexVals { mag: Vec<T>, phase: Vec<T> },
    /// One plain numeric sequence.
    Array(Vec<T>),
    /// The three scalar inputs of a sine generator.
    SineFreqVals { fsine: T, fsample: T, duration: T },
}

/// The mathematical model of a `Data` value.
#[verifier::ext_equal]
pub enum DataModel<T> {
    FftFreqVals { n: T, d: T },
    ComplexVals { mag: Seq<T>, phase: Seq<T> },
    Array(Seq<T>),
    SineFreqVals { fsine: T, fsample: T, duration: T },
}

impl<T> View for Data<T> {
    type V = DataModel<T>;

    open spec fn view(&self) -> DataModel<T> {
        match self {
            Data::FftFreqVals { n, d } => DataModel::FftFreqVals { n: *n, d: *d },
            Data::ComplexVals { mag, phase } => DataModel::ComplexVals {
                mag: mag@,
                phase: phase@,
            },
            Data::Array(vals) => DataModel::Array(vals@),
            Data::SineFreqVals { fsine, fsample, duration } => DataModel::SineFreqVals {
                fsine: *fsine,
                fsample: *fsample,
                duration: *duration,
            },
        }
    }
}

/// One fixture record: named input and output datasets plus metadata.
#[derive(Debug)]
pub struct Json<T> {
    pub input_data: Data<T>,
    pub output_data: Data<T>,
    pub function: String,
    pub path: String,
}

/// The mathematical model of a fixture record.
#[verifier::ext_equal]
pub struct JsonModel<T> {
    pub input_data: DataModel<T>,
    pub output_data: DataModel<T>,
    pub function: Seq<char>,
    pub path: Seq<char>,
}

impl<T> View for Json<T> {
    type V = JsonModel<T>;

    open spec fn view(&self) -> JsonModel<T> {
        JsonModel {
            input_data: self.input_data@,
            output_data: self.output_data@,
            function: self.function@,
            path: self.path@,
        }
    }
}

} // verus!
