use smteepee::responses::Response;

#[test]
fn formatted_replies() {
    assert_eq!(
        "220 local ESMTP smteepee Service Ready",
        Response::_220_ServiceReady("smteepee").as_string()
    );
    assert_eq!("250 OK", Response::_250_Completed("OK").as_string());
    assert_eq!("250 ", Response::_250_Completed("").as_string());
}

#[test]
fn fixed_replies() {
    assert_eq!("221 Bye", Response::_221_ServiceClosing.as_string());
    assert_eq!("235 Authentication successful", Response::_235_AuthenticationSuccessful.as_string());
    assert_eq!("334 ", Response::_334_Authenticate.as_string());
    assert_eq!("354 End data with <CR><LF>.<CR><LF>", Response::_354_StartMailInput.as_string());
    assert_eq!("502", Response::_502_CommandNotImplemented.as_string());
    assert_eq!("503", Response::_503_BadSequence.as_string());
    assert_eq!(
        "535 Authentication credentials invalid",
        Response::_535_FailedAuthentication.as_string()
    );
}

#[test]
fn bare_code_replies() {
    assert_eq!("211", Response::_211_SystemStatus.as_string());
    assert_eq!("214", Response::_214_Help.as_string());
    assert_eq!("252", Response::_252_CannotVRFYuser.as_string());
    assert_eq!("421", Response::_421_ServiceNotAvailable("x.org").as_string());
    assert_eq!("555", Response::_555_ParametersNotRecognized.as_string());
}
