use fluxi::extractor::{check_password, UnpackError};
use fluxi::hash::{hash_bytes, simple_hash};

#[test]
fn digest_of_empty_password_is_all_zero() {
    assert_eq!(simple_hash(""), vec![0u8; 32]);
}

#[test]
fn digest_of_single_letter() {
    let expected: Vec<u8> = vec![
        191, 57, 143, 233, 95, 153, 47, 73, 255, 249, 207, 169, 159, 89, 111, 9, 63, 185, 15, 105,
        223, 25, 175, 201, 127, 121, 79, 41, 31, 217, 239, 137,
    ];
    assert_eq!(simple_hash("a"), expected);
    assert_eq!(hash_bytes(b"a"), expected);
}

#[test]
fn digest_of_word() {
    let expected: Vec<u8> = vec![
        237, 219, 82, 58, 63, 233, 95, 153, 47, 73, 255, 249, 207, 169, 159, 89, 111, 9, 63, 185,
        15, 105, 223, 25, 175, 201, 127, 121, 79, 41, 31, 217,
    ];
    assert_eq!(simple_hash("secret"), expected);
}

#[test]
fn digest_is_always_32_bytes() {
    let long = "x".repeat(100);
    assert_eq!(simple_hash(&long).len(), 32);
    assert_eq!(simple_hash("ñandú").len(), 32);
}

#[test]
fn zero_digest_needs_no_password() {
    let stored = vec![0u8; 32];
    assert_eq!(check_password(&stored, None), Ok(()));
    assert_eq!(check_password(&stored, Some("anything")), Ok(()));
}

#[test]
fn protected_image_without_password_is_refused() {
    let stored = simple_hash("secret");
    assert_eq!(check_password(&stored, None), Err(UnpackError::PasswordRequired));
    assert_eq!(check_password(&stored, Some("")), Err(UnpackError::PasswordRequired));
}

#[test]
fn right_password_opens() {
    let stored = simple_hash("secret");
    assert_eq!(check_password(&stored, Some("secret")), Ok(()));
}

#[test]
fn wrong_password_is_refused() {
    let stored = simple_hash("secret");
    assert_eq!(check_password(&stored, Some("Secret")), Err(UnpackError::WrongPassword));
}

#[test]
fn error_texts() {
    assert_eq!(
        UnpackError::TooSmall.message(),
        "Archivo demasiado pequeño — no es un .fluxi.exe válido"
    );
    assert_eq!(
        UnpackError::NotFluxi.message(),
        "No es un archivo Fluxi válido — firma no encontrada"
    );
    assert_eq!(UnpackError::InvalidStructure.message(), "Estructura interna inválida");
    assert_eq!(
        UnpackError::PasswordRequired.message(),
        "Este archivo está protegido con contraseña"
    );
    assert_eq!(UnpackError::WrongPassword.message(), "Contraseña incorrecta");
    assert_eq!(
        UnpackError::NotFound { path: "C:/x.exe".to_string() }.message(),
        "Archivo no encontrado: C:/x.exe"
    );
    assert_eq!(UnpackError::Io { message: "disk full".to_string() }.message(), "disk full");
}
