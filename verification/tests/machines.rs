use bls::stores::Msg;
use bls::threshold_bls::keygen::{Keygen, LocalKey, M};
use bls::threshold_bls::sign::{ProtocolMessage, Sign, M as SignM};

fn clone_keygen_body(m: &M) -> M {
    match m {
        M::Round1(c) => M::Round1(c.clone()),
        M::Round2(d) => M::Round2(d.clone()),
        M::Round3(pair) => M::Round3((pair.0.clone(), pair.1.clone())),
        M::Round4(p) => M::Round4(p.clone()),
    }
}

fn simulate_keygen(t: u16, n: u16) -> Vec<LocalKey> {
    let mut machines: Vec<Keygen> = (1..=n)
        .map(|i| Keygen::new(i, t, n).unwrap())
        .collect();

    for _round in 0..64 {
        if machines.iter().all(|m| m.is_finished()) {
            break;
        }
        for m in machines.iter_mut() {
            if m.wants_to_proceed() {
                m.proceed().unwrap();
            }
        }
        let mut pending: Vec<Msg<M>> = Vec::new();
        for m in machines.iter_mut() {
            pending.append(m.message_queue());
        }
        for msg in &pending {
            for m in machines.iter_mut() {
                let deliver = match msg.receiver {
                    None => m.party_ind() != msg.sender,
                    Some(r) => m.party_ind() == r,
                };
                if deliver {
                    m.handle_incoming(Msg {
                        sender: msg.sender,
                        receiver: msg.receiver,
                        body: clone_keygen_body(&msg.body),
                    })
                    .unwrap();
                }
            }
        }
    }

    machines
        .into_iter()
        .map(|mut m| {
            assert!(m.is_finished());
            m.pick_output().unwrap().unwrap()
        })
        .collect()
}

fn simulate_sign(msg: &[u8], s: &[u16], t: u16, n: u16) {
    // Keygen
    let parties_keys = simulate_keygen(t, n);

    // Sign
    let parties_keys: Vec<LocalKey> = s
        .iter()
        .map(|&i| parties_keys[usize::from(i) - 1].clone())
        .collect();
    let n_signers = s.len() as u16;
    let mut machines: Vec<Sign> = (1..=n_signers)
        .map(|i| {
            Sign::new(
                msg.to_vec(),
                i,
                n_signers,
                parties_keys[usize::from(i) - 1].clone(),
            )
            .unwrap()
        })
        .collect();

    for _round in 0..64 {
        if machines.iter().all(|m| m.is_finished()) {
            break;
        }
        for m in machines.iter_mut() {
            if m.wants_to_proceed() {
                m.proceed().unwrap();
            }
        }
        let mut pending: Vec<Msg<ProtocolMessage>> = Vec::new();
        for m in machines.iter_mut() {
            pending.append(m.message_queue());
        }
        for msg in &pending {
            for m in machines.iter_mut() {
                let deliver = match msg.receiver {
                    None => m.party_ind() != msg.sender,
                    Some(r) => m.party_ind() == r,
                };
                if deliver {
                    let ProtocolMessage(SignM::Round1(pair)) = &msg.body;
                    m.handle_incoming(Msg {
                        sender: msg.sender,
                        receiver: msg.receiver,
                        body: ProtocolMessage(SignM::Round1((pair.0, pair.1.clone()))),
                    })
                    .unwrap();
                }
            }
        }
    }

    let sigs: Vec<_> = machines
        .into_iter()
        .map(|mut m| {
            assert!(m.is_finished());
            let (_, sig) = m.pick_output().unwrap().unwrap();
            sig
        })
        .collect();

    // test all signatures are equal
    let first = sigs[0].to_bytes(true);
    assert!(sigs.iter().all(|item| item.to_bytes(true) == first));
    // test the signatures pass verification
    assert!(parties_keys[0].shared_keys.verify(&sigs[0], msg));
}

#[test]
fn simulate_keygen_t1_n2() {
    simulate_keygen(1, 2);
}

#[test]
fn simulate_keygen_t1_n3() {
    simulate_keygen(1, 3);
}

#[test]
fn simulate_keygen_t2_n3() {
    simulate_keygen(2, 3);
}

#[test]
fn simulate_sign_t1_n2() {
    let msg = b"~~ MESSAGE ~~";
    simulate_sign(&msg[..], &[1, 2], 1, 2);
}

#[test]
fn simulate_sign_t1_n3() {
    let msg = b"~~ MESSAGE ~~";
    simulate_sign(&msg[..], &[1, 2], 1, 3);
}

#[test]
fn simulate_sign_t2_n3() {
    let msg = b"~~ MESSAGE ~~";
    simulate_sign(&msg[..], &[1, 2, 3], 2, 3);
}
