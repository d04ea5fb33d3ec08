use onlyclimb_launcher::protect::{
    bin_is_complete, derive_key, generate_token, is_stale_temp, open_game_binary,
    launch_step, seal_game_binary, seal_step, seal_with_nonce, temp_file_name, temp_file_name_for,
    LaunchAction, LaunchEvent, SealAction, SealEvent, SealOutcome, MASTER_FINGERPRINT,
};

fn sealed_bytes(outcome: SealOutcome) -> Vec<u8> {
    match outcome {
        SealOutcome::Sealed(out) => out,
        other => panic!("not sealed: {:?}", other),
    }
}

fn hex(b: &[u8]) -> String {
    b.iter().map(|x| format!("{:02x}", x)).collect()
}

#[test]
fn master_key_value() {
    let k = derive_key(MASTER_FINGERPRINT);
    assert_eq!(k.len(), 32);
    assert_eq!(hex(&k), "1929a42a3694ea7f6dbdd05db01d6171c41019051ce75205fafb9205ce347f08");
    assert_eq!(derive_key(MASTER_FINGERPRINT), k);
    assert_ne!(derive_key("0000000000000000"), k);
}

#[test]
fn sealed_format() {
    let data = vec![7u8; 100];
    let nonce = [1u8; 12];
    let out = seal_with_nonce(MASTER_FINGERPRINT, &nonce, &data).unwrap();
    assert_eq!(out.len(), 100 + 32);
    assert_eq!(&out[..4], b"OCP1");
    assert_eq!(&out[4..16], &nonce);
    assert_ne!(&out[16..116], &data[..]);
}

#[test]
fn sealed_game_opens_again() {
    let data: Vec<u8> = (0..10000u32).map(|i| (i % 251) as u8).collect();
    let out = sealed_bytes(seal_game_binary(MASTER_FINGERPRINT, &data));
    assert!(bin_is_complete(out.len() as u64));
    assert_eq!(open_game_binary(&out).unwrap(), data);
    let fixed = seal_with_nonce(MASTER_FINGERPRINT, &[9u8; 12], &data).unwrap();
    assert_eq!(open_game_binary(&fixed).unwrap(), data);
}

#[test]
fn empty_game_is_not_sealed() {
    assert!(matches!(seal_game_binary(MASTER_FINGERPRINT, &[]), SealOutcome::Skipped));
}

#[test]
fn open_errors() {
    assert_eq!(
        open_game_binary(&[0u8; 31]).unwrap_err(),
        "Fichier jeu corrompu (trop petit). Relancez le launcher."
    );
    let mut bad_magic = seal_with_nonce(MASTER_FINGERPRINT, &[2u8; 12], b"game").unwrap();
    bad_magic[0] = b'X';
    assert_eq!(
        open_game_binary(&bad_magic).unwrap_err(),
        "Fichier jeu invalide (magic OCP1 absent). Reinstallation necessaire."
    );
    let mut tampered = seal_with_nonce(MASTER_FINGERPRINT, &[2u8; 12], b"game").unwrap();
    let last = tampered.len() - 1;
    tampered[last] ^= 1;
    assert_eq!(
        open_game_binary(&tampered).unwrap_err(),
        "Dechiffrement echoue. Fichier jeu corrompu ou altere."
    );
    let other = seal_with_nonce("AAAAAAAAAAAAAAAA", &[2u8; 12], b"game").unwrap();
    assert_eq!(
        open_game_binary(&other).unwrap_err(),
        "Dechiffrement echoue. Fichier jeu corrompu ou altere."
    );
}

#[test]
fn complete_bin_threshold() {
    assert!(!bin_is_complete(0));
    assert!(!bin_is_complete(8191));
    assert!(bin_is_complete(8192));
}

#[test]
fn temp_names_are_recognized() {
    let n = temp_file_name_for(&[0xab; 12]);
    assert_eq!(n, "system_core_abababababababababababab.tmp");
    assert!(is_stale_temp(&n));
    let fresh = temp_file_name().unwrap();
    assert!(fresh.starts_with("system_core_") && fresh.ends_with(".tmp"));
    assert_eq!(fresh.len(), "system_core_".len() + 24 + ".tmp".len());
    assert!(is_stale_temp(&fresh));
    assert!(!is_stale_temp("system_core.bin"));
    assert!(!is_stale_temp("system_core_x.exe"));
    assert!(!is_stale_temp("other_1.tmp"));
}

#[test]
fn tokens_are_hex() {
    let t = generate_token().unwrap();
    assert_eq!(t.len(), 24);
    assert!(t.chars().all(|c| c.is_ascii_digit() || ('a'..='f').contains(&c)));
    assert_ne!(generate_token().unwrap(), t);
}

#[test]
fn protection_steps() {
    let fp = MASTER_FINGERPRINT;
    assert!(matches!(seal_step(fp, SealEvent::Start { bin_len: Some(9000) }), SealAction::Stop));
    assert!(matches!(seal_step(fp, SealEvent::Start { bin_len: Some(0) }), SealAction::RemoveStub));
    assert!(matches!(seal_step(fp, SealEvent::Start { bin_len: None }), SealAction::CheckExe));
    assert!(matches!(seal_step(fp, SealEvent::StubRemoved), SealAction::CheckExe));
    assert!(matches!(seal_step(fp, SealEvent::ExeFound(false)), SealAction::Stop));
    assert!(matches!(seal_step(fp, SealEvent::ExeFound(true)), SealAction::ReadExe));
    assert!(matches!(seal_step(fp, SealEvent::ExeRead(None)), SealAction::Stop));
    assert!(matches!(seal_step(fp, SealEvent::ExeRead(Some(vec![]))), SealAction::Stop));
    match seal_step(fp, SealEvent::ExeRead(Some(vec![5u8; 64]))) {
        SealAction::Write(out) => {
            assert_eq!(out.len(), 64 + 32);
            assert_eq!(open_game_binary(&out).unwrap(), vec![5u8; 64]);
        }
        other => panic!("unexpected {:?}", other),
    }
    assert!(matches!(seal_step(fp, SealEvent::Written(true)), SealAction::RemoveExe));
    assert!(matches!(seal_step(fp, SealEvent::Written(false)), SealAction::Stop));
}

#[test]
fn launch_steps() {
    let sealed = seal_with_nonce(MASTER_FINGERPRINT, &[3u8; 12], b"GAME").unwrap();
    match launch_step(LaunchEvent::BinRead(Ok(sealed))) {
        LaunchAction::WriteTemp(game) => assert_eq!(game, b"GAME".to_vec()),
        other => panic!("unexpected {:?}", other),
    }
    match launch_step(LaunchEvent::BinRead(Err(String::from("not found")))) {
        LaunchAction::Fail(m) => assert_eq!(m, "Lecture du jeu impossible : not found"),
        other => panic!("unexpected {:?}", other),
    }
    match launch_step(LaunchEvent::BinRead(Ok(vec![0u8; 10]))) {
        LaunchAction::Fail(m) => {
            assert_eq!(m, "Fichier jeu corrompu (trop petit). Relancez le launcher.")
        }
        other => panic!("unexpected {:?}", other),
    }
    match launch_step(LaunchEvent::TempWritten(Err(String::from("denied")))) {
        LaunchAction::Fail(m) => assert_eq!(m, "Ecriture temporaire impossible : denied"),
        other => panic!("unexpected {:?}", other),
    }
    assert!(matches!(launch_step(LaunchEvent::TempWritten(Ok(()))), LaunchAction::WriteToken));
    match launch_step(LaunchEvent::TokenWritten(Err(String::from("denied")))) {
        LaunchAction::Fail(m) => assert_eq!(m, "Impossible d'ecrire le jeton de licence : denied"),
        other => panic!("unexpected {:?}", other),
    }
    assert!(matches!(launch_step(LaunchEvent::TokenWritten(Ok(()))), LaunchAction::Spawn));
    match launch_step(LaunchEvent::Spawned(Err(String::from("bad exe")))) {
        LaunchAction::CleanUpAndFail(m) => assert_eq!(m, "Impossible de lancer le jeu : bad exe"),
        other => panic!("unexpected {:?}", other),
    }
    assert!(matches!(launch_step(LaunchEvent::Spawned(Ok(()))), LaunchAction::Running));
}

#[test]
fn sealed_length_and_round_trip() {
    for len in [1usize, 15, 16, 17, 1000] {
        let game: Vec<u8> = (0..len).map(|i| (i * 7 % 256) as u8).collect();
        let out = sealed_bytes(seal_game_binary(MASTER_FINGERPRINT, &game));
        assert_eq!(out.len(), len + 32);
        assert_eq!(&out[..4], b"OCP1");
        assert_eq!(open_game_binary(&out).unwrap(), game);
    }
}
