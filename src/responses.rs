//! The reply lines that the server sends, each with its status code.
use vstd::prelude::*;

verus! {

/// The text of a completion reply: `250 ` and `text`.
pub open spec fn completed_line(text: Seq<char>) -> Seq<char> {
    "250 "@ + text
}

/// The text of the greeting that opens a session.
pub open spec fn ready_line(domain: Seq<char>) -> Seq<char> {
    "220 local ESMTP "@ + domain + " Service Ready"@
}

/// A reply to the client.
#[allow(non_camel_case_types)]
pub enum Response<'a> {
    _211_SystemStatus,
    _214_Help,
    _220_ServiceReady(&'a str),
    _221_ServiceClosing,
    _235_AuthenticationSuccessful,
    _250_Completed(&'a str),
    _251_UserNotLocal,
    _252_CannotVRFYuser, // but will accept message and attempt delivery
    _334_Authenticate,
    _354_StartMailInput, // end with <CRLF>.<CRLF>
    _421_ServiceNotAvailable(&'a str),
    _450_MailboxUnavailable,
    _451_ErrorInProcessing,
    _452_InsufficientStorage,
    _455_ServerUnableToAccommodate,
    _500_SyntaxError, // command unrecognized
    _501_SyntaxErrorInParameters,
    _502_CommandNotImplemented,
    _503_BadSequence,
    _504_ParameterNotImplemented,
    _535_FailedAuthentication,
    _550_MailboxUnavailable,
    _551_UserNotLocal, // please try <forward-path>
    _552_ExceededStorageAllocation,
    _553_MailboxNameNotAllowed,
    _554_TransactionFailed,
    _555_ParametersNotRecognized, // MAIL FROM/RCPT TO
}

impl<'a> Response<'a> {
    /// The line that this reply sends.
    pub open spec fn text(&self) -> Seq<char> {
        match self {
            Response::_211_SystemStatus => "211"@,
            Response::_214_Help => "214"@,
            Response::_220_ServiceReady(domain) => ready_line(domain@),
            Response::_221_ServiceClosing => "221 Bye"@,
            Response::_235_AuthenticationSuccessful => "235 Authentication successful"@,
            Response::_250_Completed(text) => completed_line(text@),
            Response::_251_UserNotLocal => "251"@,
            Response::_252_CannotVRFYuser => "252"@,
            Response::_334_Authenticate => "334 "@,
            Response::_354_StartMailInput => "354 End data with <CR><LF>.<CR><LF>"@,
            Response::_421_ServiceNotAvailable(_) => "421"@,
            Response::_450_MailboxUnavailable => "450"@,
            Response::_451_ErrorInProcessing => "451"@,
            Response::_452_InsufficientStorage => "452"@,
            Response::_455_ServerUnableToAccommodate => "455"@,
            Response::_500_SyntaxError => "500"@,
            Response::_501_SyntaxErrorInParameters => "501"@,
            Response::_502_CommandNotImplemented => "502"@,
            Response::_503_BadSequence => "503"@,
            Response::_504_ParameterNotImplemented => "504"@,
            Response::_535_FailedAuthentication => "535 Authentication credentials invalid"@,
            Response::_550_MailboxUnavailable => "550"@,
            Response::_551_UserNotLocal => "551"@,
            Response::_552_ExceededStorageAllocation => "552"@,
            Response::_553_MailboxNameNotAllowed => "553"@,
            Response::_554_TransactionFailed => "554"@,
            Response::_555_ParametersNotRecognized => "555"@,
        }
    }

    /// The line that this reply sends, status code first.
    pub fn as_string(&self) -> (r: String)
        ensures
            r@ == self.text(),
    {
        match self {
            Response::_211_SystemStatus => "211".to_owned(),
            Response::_214_Help => "214".to_owned(),
            Response::_220_ServiceReady(domain) => {
                let mut r = "220 local ESMTP ".to_owned();
                r.append(domain);
                r.append(" Service Ready");
                r
            },
            Response::_221_ServiceClosing => "221 Bye".to_owned(),
            Response::_235_AuthenticationSuccessful => "235 Authentication successful".to_owned(),
            Response::_250_Completed(text) => {
                let mut r = "250 ".to_owned();
                r.append(text);
                r
            },
            Response::_251_UserNotLocal => "251".to_owned(),
            Response::_252_CannotVRFYuser => "252".to_owned(),
            Response::_334_Authenticate => "334 ".to_owned(),
            Response::_354_StartMailInput => "354 End data with <CR><LF>.<CR><LF>".to_owned(),
            Response::_421_ServiceNotAvailable(_) => "421".to_owned(),
            Response::_450_MailboxUnavailable => "450".to_owned(),
            Response::_451_ErrorInProcessing => "451".to_owned(),
            Response::_452_InsufficientStorage => "452".to_owned(),
            Response::_455_ServerUnableToAccommodate => "455".to_owned(),
            Response::_500_SyntaxError => "500".to_owned(),
            Response::_501_SyntaxErrorInParameters => "501".to_owned(),
            Response::_502_CommandNotImplemented => "502".to_owned(),
            Response::_503_BadSequence => "503".to_owned(),
            Response::_504_ParameterNotImplemented => "504".to_owned(),
            Response::_535_FailedAuthentication => "535 Authentication credentials invalid".to_owned(),
            Response::_550_MailboxUnavailable => "550".to_owned(),
            Response::_551_UserNotLocal => "551".to_owned(),
            Response::_552_ExceededStorageAllocation => "552".to_owned(),
            Response::_553_MailboxNameNotAllowed => "553".to_owned(),
            Response::_554_TransactionFailed => "554".to_owned(),
            Response::_555_ParametersNotRecognized => "555".to_owned(),
        }
    }
}

} // verus!
