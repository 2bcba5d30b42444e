use pi_sentinel::crypto::KeyPair;
use pi_sentinel::executor::ExecError;
use pi_sentinel::executor::Executor;
use pi_sentinel::executor::Task;
use pi_sentinel::executor::TaskOutcome;
use pi_sentinel::math::is_prime;

fn executor() -> Executor {
    Executor::new(KeyPair::from_bytes(b"an-executor-secret".to_vec()))
}

#[test]
fn gcd_and_lcm_tasks_compute_their_numbers() {
    let ex = executor();
    assert!(matches!(
        ex.execute(&Task::ComputeGcd(12, 18)),
        Ok(TaskOutcome::Number(6))
    ));
    assert!(matches!(
        ex.execute(&Task::ComputeLcm(4, 6)),
        Ok(TaskOutcome::Number(12))
    ));
    assert!(matches!(
        ex.execute(&Task::ComputeLcm(u64::MAX, u64::MAX - 1)),
        Err(ExecError::OutOfRange)
    ));
}

#[test]
fn primality_tasks_answer_exactly() {
    let ex = executor();
    assert!(matches!(ex.execute(&Task::IsPrime(97)), Ok(TaskOutcome::Truth(true))));
    assert!(matches!(ex.execute(&Task::IsPrime(98)), Ok(TaskOutcome::Truth(false))));
    assert!(matches!(ex.execute(&Task::NextPrime(8)), Ok(TaskOutcome::Number(11))));
    assert!(matches!(
        ex.execute(&Task::NextPrime(u64::MAX)),
        Err(ExecError::OutOfRange)
    ));
}

#[test]
fn random_prime_task_honours_its_width() {
    let ex = executor();
    match ex.execute(&Task::RandomPrime(12)) {
        Ok(TaskOutcome::Number(p)) => {
            assert!(p >= 2048);
            assert!(is_prime(p));
        },
        other => panic!("unexpected outcome: {:?}", other.is_ok()),
    }
    assert!(matches!(
        ex.execute(&Task::RandomPrime(1)),
        Err(ExecError::UnsupportedWidth)
    ));
    assert!(matches!(
        ex.execute(&Task::RandomPrime(64)),
        Err(ExecError::UnsupportedWidth)
    ));
}

#[test]
fn signature_task_checks_against_the_executor_key() {
    let kp = KeyPair::from_bytes(b"an-executor-secret".to_vec());
    let message = b"hello".to_vec();
    let signature = kp.sign(&message);
    let ex = Executor::new(kp);
    assert!(matches!(
        ex.execute(&Task::VerifySignature(message.clone(), signature.clone())),
        Ok(TaskOutcome::SignatureValid)
    ));
    let mut tampered = signature;
    tampered[0] = tampered[0].wrapping_add(1);
    assert!(matches!(
        ex.execute(&Task::VerifySignature(message, tampered)),
        Err(ExecError::InvalidSignature)
    ));
}

#[test]
fn key_pair_task_yields_a_pair() {
    let ex = executor();
    assert!(matches!(
        ex.execute(&Task::GenerateKeyPair),
        Ok(TaskOutcome::NewKeyPair(_))
    ));
}
