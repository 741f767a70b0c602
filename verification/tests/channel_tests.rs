use russh_core::secure_channel::{ChannelRole, KeyPair, SecureChannelBuilder, PUBLIC_KEY_SIZE};

#[test]
fn keypair_generation() {
    let keypair = KeyPair::generate().unwrap();
    assert_eq!(keypair.public_key().len(), PUBLIC_KEY_SIZE);
}

#[test]
fn identity_from_public_key() {
    let keypair = KeyPair::generate().unwrap();
    let identity = keypair.identity();
    assert_eq!(identity.public_key, *keypair.public_key());
}

#[test]
fn secure_channel_establishment() {
    let initiator_builder = SecureChannelBuilder::new().unwrap();
    let init_msg = initiator_builder.create_init_message();

    let responder_builder = SecureChannelBuilder::new().unwrap();
    let (responder_channel, response_msg) = responder_builder.process_init(init_msg).unwrap();

    let initiator_channel = initiator_builder.process_response(response_msg).unwrap();

    assert_eq!(initiator_channel.role(), ChannelRole::Initiator);
    assert_eq!(responder_channel.role(), ChannelRole::Responder);

    assert_eq!(
        initiator_channel.peer_identity().identifier.as_bytes(),
        responder_channel.local_identity().identifier.as_bytes()
    );
    assert_eq!(
        responder_channel.peer_identity().identifier.as_bytes(),
        initiator_channel.local_identity().identifier.as_bytes()
    );
}

#[test]
fn secure_channel_encryption_roundtrip() {
    let initiator_builder = SecureChannelBuilder::new().unwrap();
    let init_msg = initiator_builder.create_init_message();

    let responder_builder = SecureChannelBuilder::new().unwrap();
    let (mut responder_channel, response_msg) = responder_builder.process_init(init_msg).unwrap();

    let mut initiator_channel = initiator_builder.process_response(response_msg).unwrap();

    let plaintext = b"ping";
    let encrypted = initiator_channel.encrypt(plaintext).unwrap();
    let decrypted = responder_channel.decrypt(&encrypted).unwrap();
    assert_eq!(plaintext.as_slice(), decrypted.as_slice());

    let plaintext2 = b"pong";
    let encrypted2 = responder_channel.encrypt(plaintext2).unwrap();
    let decrypted2 = initiator_channel.decrypt(&encrypted2).unwrap();
    assert_eq!(plaintext2.as_slice(), decrypted2.as_slice());
}

#[test]
fn wrong_channel_cannot_decrypt() {
    let builder1 = SecureChannelBuilder::new().unwrap();
    let init1 = builder1.create_init_message();
    let builder2 = SecureChannelBuilder::new().unwrap();
    let (mut channel1_responder, response1) = builder2.process_init(init1).unwrap();
    let mut channel1_initiator = builder1.process_response(response1).unwrap();

    let builder3 = SecureChannelBuilder::new().unwrap();
    let init3 = builder3.create_init_message();
    let builder4 = SecureChannelBuilder::new().unwrap();
    let (mut channel2_responder, response3) = builder4.process_init(init3).unwrap();
    let _channel2_initiator = builder3.process_response(response3).unwrap();

    let plaintext = b"Secret message";
    let encrypted = channel1_initiator.encrypt(plaintext).unwrap();

    let decrypted = channel1_responder.decrypt(&encrypted).unwrap();
    assert_eq!(plaintext.as_slice(), decrypted.as_slice());

    let encrypted2 = channel1_initiator.encrypt(plaintext).unwrap();

    let result = channel2_responder.decrypt(&encrypted2);
    assert!(result.is_err());
}

#[test]
fn replay_attack_prevention() {
    let initiator_builder = SecureChannelBuilder::new().unwrap();
    let init_msg = initiator_builder.create_init_message();

    let responder_builder = SecureChannelBuilder::new().unwrap();
    let (mut responder_channel, response_msg) = responder_builder.process_init(init_msg).unwrap();

    let mut initiator_channel = initiator_builder.process_response(response_msg).unwrap();

    let plaintext = b"ping";
    let encrypted = initiator_channel.encrypt(plaintext).unwrap();

    let decrypted = responder_channel.decrypt(&encrypted).unwrap();
    assert_eq!(plaintext.as_slice(), decrypted.as_slice());

    let result = responder_channel.decrypt(&encrypted);
    assert!(result.is_err(), "Replay attack should be detected");
}

#[test]
fn out_of_order_messages_within_window() {
    let initiator_builder = SecureChannelBuilder::new().unwrap();
    let init_msg = initiator_builder.create_init_message();

    let responder_builder = SecureChannelBuilder::new().unwrap();
    let (mut responder_channel, response_msg) = responder_builder.process_init(init_msg).unwrap();

    let mut initiator_channel = initiator_builder.process_response(response_msg).unwrap();

    let msg1 = initiator_channel.encrypt(b"Message 1").unwrap();
    let msg2 = initiator_channel.encrypt(b"Message 2").unwrap();
    let msg3 = initiator_channel.encrypt(b"Message 3").unwrap();

    assert!(responder_channel.decrypt(&msg3).is_ok());
    assert!(responder_channel.decrypt(&msg1).is_ok());
    assert!(responder_channel.decrypt(&msg2).is_ok());

    assert!(responder_channel.decrypt(&msg1).is_err());
    assert!(responder_channel.decrypt(&msg2).is_err());
    assert!(responder_channel.decrypt(&msg3).is_err());
}

#[test]
fn many_messages_any_order_once_each() {
    let initiator_builder = SecureChannelBuilder::new().unwrap();
    let init_msg = initiator_builder.create_init_message();
    let responder_builder = SecureChannelBuilder::new().unwrap();
    let (mut responder, response_msg) = responder_builder.process_init(init_msg).unwrap();
    let mut initiator = initiator_builder.process_response(response_msg).unwrap();

    let mut messages = Vec::new();
    for i in 0..64u32 {
        messages.push(initiator.encrypt(format!("m{}", i).as_bytes()).unwrap());
    }
    // A fixed permutation: stride through the batch.
    let mut order = Vec::new();
    for start in 0..7usize {
        let mut k = start;
        while k < 64 {
            order.push(k);
            k += 7;
        }
    }
    for &k in &order {
        assert!(responder.decrypt(&messages[k]).is_ok(), "first delivery accepted");
    }
    for &k in &order {
        assert!(responder.decrypt(&messages[k]).is_err(), "second delivery rejected");
    }
}
