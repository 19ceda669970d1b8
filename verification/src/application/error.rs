//! Errors of the application layer.

use vstd::prelude::*;
use crate::text::{extend_str, from_chars};

verus! {

broadcast use vstd::string::group_string_axioms;

/// Errors of the use cases and of the VM Service transport.
#[derive(Debug, Clone, PartialEq)]
pub enum ApplicationError {
    ConnectionError(String),
    NotConnected,
    WidgetNotFound(String),
    DriverError(String),
    PumpTimeout,
    SerializationError(String),
    FileSystemError(String),
    MainNotFound(String),
    Internal(String),
}

/// The human-readable message of an error.
pub open spec fn spec_error_message(e: ApplicationError) -> Seq<char> {
    match e {
        ApplicationError::ConnectionError(s) => "Error de conexión con la Dart VM: "@ + s@,
        ApplicationError::NotConnected => "No hay ninguna aplicación Flutter conectada"@,
        ApplicationError::WidgetNotFound(s) => "Elemento no encontrado para el finder: "@ + s@,
        ApplicationError::DriverError(s) => "Error ejecutando comando de Flutter Driver: "@ + s@,
        ApplicationError::PumpTimeout => "Timeout esperando estabilización de la UI (pumpAndSettle)"@,
        ApplicationError::SerializationError(s) => "Error de serialización/deserialización: "@ + s@,
        ApplicationError::FileSystemError(s) => "Error de sistema de archivos: "@ + s@,
        ApplicationError::MainNotFound(s) => "No se encontró una función main() reconocible en '"@ + s@
            + "' para inyectar Flutter Driver"@,
        ApplicationError::Internal(s) => "Error interno del protocolo: "@ + s@,
    }
}

impl ApplicationError {
    /// The human-readable message of the error.
    pub fn message(&self) -> (r: String)
        ensures
            r@ == spec_error_message(*self),
    {
        let mut out: Vec<char> = Vec::new();
        match self {
            ApplicationError::ConnectionError(s) => {
                extend_str(&mut out, "Error de conexión con la Dart VM: ");
                extend_str(&mut out, s.as_str());
            },
            ApplicationError::NotConnected => {
                extend_str(&mut out, "No hay ninguna aplicación Flutter conectada");
            },
            ApplicationError::WidgetNotFound(s) => {
                extend_str(&mut out, "Elemento no encontrado para el finder: ");
                extend_str(&mut out, s.as_str());
            },
            ApplicationError::DriverError(s) => {
                extend_str(&mut out, "Error ejecutando comando de Flutter Driver: ");
                extend_str(&mut out, s.as_str());
            },
            ApplicationError::PumpTimeout => {
                extend_str(&mut out, "Timeout esperando estabilización de la UI (pumpAndSettle)");
            },
            ApplicationError::SerializationError(s) => {
                extend_str(&mut out, "Error de serialización/deserialización: ");
                extend_str(&mut out, s.as_str());
            },
            ApplicationError::FileSystemError(s) => {
                extend_str(&mut out, "Error de sistema de archivos: ");
                extend_str(&mut out, s.as_str());
            },
            ApplicationError::MainNotFound(s) => {
                extend_str(&mut out, "No se encontró una función main() reconocible en '");
                extend_str(&mut out, s.as_str());
                extend_str(&mut out, "' para inyectar Flutter Driver");
            },
            ApplicationError::Internal(s) => {
                extend_str(&mut out, "Error interno del protocolo: ");
                extend_str(&mut out, s.as_str());
            },
        }
        from_chars(&out)
    }
}

} // verus!
