//! The task executor: dispatches submitted tasks to the library's
//! cryptographic and number-theoretic routines.
//!
//! The executor is a pure dispatcher: it computes a result for each task
//! and hands it back; queueing tasks and storing results are the
//! application shell's concern.

use vstd::prelude::*;

use crate::block::spec_keyed_digest;
use crate::crypto::KeyPair;
use crate::math::next_prime;
use crate::math::random_prime;
use crate::math::spec_gcd;
use crate::math::spec_is_prime;
use crate::math::spec_lcm;

verus! {

/// One unit of work submitted to the executor.
pub enum Task {
    /// Draw a fresh key pair.
    GenerateKeyPair,
    /// Check a signature over a message against the executor's key.
    VerifySignature(Vec<u8>, Vec<u8>),
    /// The greatest common divisor of two numbers.
    ComputeGcd(u64, u64),
    /// The least common multiple of two numbers.
    ComputeLcm(u64, u64),
    /// Whether a number is prime.
    IsPrime(u64),
    /// The smallest prime above a number.
    NextPrime(u64),
    /// A prime of the given width, drawn near a random starting point.
    RandomPrime(usize),
}

/// What a completed task produced.
pub enum TaskOutcome {
    /// A fresh key pair.
    NewKeyPair(KeyPair),
    /// The signature checked out.
    SignatureValid,
    /// A numeric result.
    Number(u64),
    /// A yes-or-no result.
    Truth(bool),
}

/// Why a task failed.
#[derive(Clone, Copy, Debug, PartialEq, Eq)]
pub enum ExecError {
    /// The signature does not check against the executor's key.
    InvalidSignature,
    /// The exact result does not fit in a machine word.
    OutOfRange,
    /// A width outside the supported range was asked for.
    UnsupportedWidth,
    /// The random starting point found no prime above it.
    NoPrimeFound,
}

/// Executes tasks against this node's key pair.
pub struct Executor {
    key_pair: KeyPair,
}

impl Executor {
    /// The public key signatures are checked against.
    pub closed spec fn spec_public(self) -> Seq<u8> {
        self.key_pair.spec_public()
    }

    /// An executor over `key_pair`.
    pub fn new(key_pair: KeyPair) -> (e: Executor)
        ensures
            e.spec_public() == key_pair.spec_public(),
    {
        Executor { key_pair }
    }

    /// Runs one task to completion and hands back what it produced.
    /// Deterministic tasks are pinned exactly; of the random ones only
    /// the shape of the outcome is promised.
    pub fn execute(&self, task: &Task) -> (r: Result<TaskOutcome, ExecError>)
        ensures
            match *task {
                Task::GenerateKeyPair => r is Ok && (r->Ok_0 is NewKeyPair),
                Task::VerifySignature(ref msg, ref sig) => {
                    if sig@ == spec_keyed_digest(self.spec_public(), msg@) {
                        r == Ok::<TaskOutcome, ExecError>(TaskOutcome::SignatureValid)
                    } else {
                        r == Err::<TaskOutcome, ExecError>(ExecError::InvalidSignature)
                    }
                },
                Task::ComputeGcd(a, b) => r == Ok::<TaskOutcome, ExecError>(
                    TaskOutcome::Number(spec_gcd(a as nat, b as nat) as u64),
                ),
                Task::ComputeLcm(a, b) => {
                    if spec_lcm(a as nat, b as nat) <= u64::MAX {
                        r == Ok::<TaskOutcome, ExecError>(
                            TaskOutcome::Number(spec_lcm(a as nat, b as nat) as u64),
                        )
                    } else {
                        r == Err::<TaskOutcome, ExecError>(ExecError::OutOfRange)
                    }
                },
                Task::IsPrime(n) => r == Ok::<TaskOutcome, ExecError>(
                    TaskOutcome::Truth(spec_is_prime(n as nat)),
                ),
                Task::NextPrime(n) => {
                    match r {
                        Ok(TaskOutcome::Number(p)) => spec_is_prime(p as nat) && p > n
                            && forall|q: u64| n < q < p ==> !spec_is_prime(q as nat),
                        Err(e) => e == ExecError::OutOfRange && forall|q: u64|
                            q > n ==> !spec_is_prime(q as nat),
                        _ => false,
                    }
                },
                Task::RandomPrime(bits) => {
                    if bits < 2 || bits > 63 {
                        r == Err::<TaskOutcome, ExecError>(ExecError::UnsupportedWidth)
                    } else {
                        match r {
                            Ok(TaskOutcome::Number(p)) => spec_is_prime(p as nat) && p >= (1u64
                                << (((bits - 1) as u64))),
                            Err(e) => e == ExecError::NoPrimeFound,
                            _ => false,
                        }
                    }
                },
            },
    {
        match task {
            Task::GenerateKeyPair => Ok(TaskOutcome::NewKeyPair(KeyPair::generate())),
            Task::VerifySignature(msg, sig) => {
                if self.key_pair.verify(msg, sig) {
                    Ok(TaskOutcome::SignatureValid)
                } else {
                    Err(ExecError::InvalidSignature)
                }
            },
            Task::ComputeGcd(a, b) => Ok(TaskOutcome::Number(crate::math::gcd(*a, *b))),
            Task::ComputeLcm(a, b) => {
                match crate::math::lcm(*a, *b) {
                    Some(l) => Ok(TaskOutcome::Number(l)),
                    None => Err(ExecError::OutOfRange),
                }
            },
            Task::IsPrime(n) => Ok(TaskOutcome::Truth(crate::math::is_prime(*n))),
            Task::NextPrime(n) => {
                match next_prime(*n) {
                    Some(p) => Ok(TaskOutcome::Number(p)),
                    None => Err(ExecError::OutOfRange),
                }
            },
            Task::RandomPrime(bits) => {
                if *bits < 2 || *bits > 63 {
                    Err(ExecError::UnsupportedWidth)
                } else {
                    match random_prime(*bits) {
                        Some(p) => Ok(TaskOutcome::Number(p)),
                        None => Err(ExecError::NoPrimeFound),
                    }
                }
            },
        }
    }
}

} // verus!
