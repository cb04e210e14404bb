//! Errors of the library.

use vstd::prelude::*;

verus! {

/// The kernel's errors, passed on as they are. See [`generic_message`] for what is known of one.
#[verifier::external_type_specification]
#[verifier::external_body]
pub struct ExKernelError(delta_kernel::Error);

/// Why an operation on a table failed.
#[derive(Debug)]
pub enum DeltaError {
    /// The library's own finding, in words.
    Generic(String),
    /// What the kernel reported.
    Kernel(delta_kernel::Error),
}

/// What a [`DeltaError`] says.
pub ghost enum DeltaErrorView {
    Generic(Seq<char>),
    Kernel(delta_kernel::Error),
}

impl View for DeltaError {
    type V = DeltaErrorView;

    open spec fn view(&self) -> DeltaErrorView {
        match self {
            DeltaError::Generic(message) => DeltaErrorView::Generic(message@),
            DeltaError::Kernel(error) => DeltaErrorView::Kernel(*error),
        }
    }
}

/// The message of a kernel error that is a generic one (`delta_kernel::Error::Generic`).
pub uninterp spec fn generic_message(error: delta_kernel::Error) -> Option<Seq<char>>;

/// `Display` of `delta_kernel::Error`: a generic error reads as its message behind a fixed lead.
/// How another error reads is left open: the text can hold a backtrace, the words of the operating
/// system or those of an error of any other type.
#[verifier::external_body]
fn kernel_text(error: &delta_kernel::Error) -> (text: String)
    ensures
        generic_message(*error) matches Some(m) ==> text@ == "Generic delta kernel error: "@ + m,
{
    error.to_string()
}

/// Whether an error may read so. The library's own findings read as the kernel's generic errors
/// do. How any other error of the kernel reads is up to the kernel.
pub open spec fn may_say(error: DeltaErrorView, text: Seq<char>) -> bool {
    match error {
        DeltaErrorView::Generic(message) => text == "Generic delta kernel error: "@ + message,
        DeltaErrorView::Kernel(error) => generic_message(error) matches Some(message) ==> text
            == "Generic delta kernel error: "@ + message,
    }
}

/// Whether `message` says what failed, and then the error in words.
pub open spec fn reports(message: Seq<char>, what: Seq<char>, error: DeltaErrorView) -> bool {
    exists|text: Seq<char>| #[trigger] may_say(error, text) && message == what + text
}

impl DeltaError {
    /// The error in words.
    pub fn text(&self) -> (text: String)
        ensures
            may_say(self@, text@),
            self matches DeltaError::Generic(m) ==> text@ == "Generic delta kernel error: "@ + m@,
            self matches DeltaError::Kernel(e) ==> generic_message(*e) matches Some(m) ==> text@
                == "Generic delta kernel error: "@ + m,
    {
        match self {
            DeltaError::Generic(message) => {
                let mut text = "Generic delta kernel error: ".to_owned();
                text.append(message.as_str());
                text
            },
            DeltaError::Kernel(error) => kernel_text(error),
        }
    }
}

} // verus!
