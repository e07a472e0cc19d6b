use smtpbis::codec::LineError;
use smtpbis::error::ServerError;

#[test]
fn framing_errors_wrap_as_framing() {
    assert!(matches!(
        ServerError::from(LineError::LineTooLong),
        ServerError::Framing(LineError::LineTooLong)
    ));
    assert!(matches!(
        ServerError::from(LineError::BareCR),
        ServerError::Framing(LineError::BareCR)
    ));
    assert!(matches!(
        ServerError::from(LineError::BareLF),
        ServerError::Framing(LineError::BareLF)
    ));
}

#[test]
fn transport_errors_stay_transport_errors() {
    let io = std::io::Error::new(std::io::ErrorKind::Other, "boom");
    assert!(matches!(ServerError::from(LineError::IO(io)), ServerError::IO(_)));
    let io = std::io::Error::new(std::io::ErrorKind::Other, "boom");
    assert!(matches!(ServerError::from(io), ServerError::IO(_)));
}
