use vstd::prelude::*;

use crate::config::{copy_opt, opt_view};

verus! {

/// A way to authenticate one hop.
#[derive(Debug, Clone)]
pub enum AuthMethod {
    /// A private key file, with its public key file where one exists.
    KeyFile { private_key: String, public_key: Option<String> },
    /// Keys held by the credential agent.
    Agent,
}

/// What to do after an authentication attempt.
#[derive(Debug, Clone)]
pub enum AuthStep {
    Try(AuthMethod),
    Authenticated,
    /// Nothing is left to try: the hop fails to authenticate.
    Failed,
}

/// The path of the public key that goes with a private key file.
pub open spec fn public_key_of(identity: Seq<char>) -> Seq<char> {
    identity + seq!['.', 'p', 'u', 'b']
}

/// The public key file that may stand beside the private key `identity`.
pub fn public_key_path(identity: &str) -> (r: String)
    ensures
        r@ == public_key_of(identity@),
{
    let mut r = identity.to_owned();
    r.push('.');
    r.push('p');
    r.push('u');
    r.push('b');
    assert(r@ =~= public_key_of(identity@));
    r
}

/// The first method to try: the identity file where one is configured (with
/// its public key where that file exists), else the agent.
pub fn first_auth_method(identity_file: &Option<String>, public_key_exists: bool) -> (r: AuthMethod)
    ensures
        match identity_file {
            Some(id) => r matches AuthMethod::KeyFile { private_key, public_key } && private_key@
                == id@ && (public_key_exists ==> opt_view(public_key) == Some(public_key_of(id@)))
                && (!public_key_exists ==> public_key is None),
            None => r matches AuthMethod::Agent,
        },
{
    match identity_file {
        Some(id) => {
            let public_key = if public_key_exists {
                Some(public_key_path(id.as_str()))
            } else {
                None
            };
            AuthMethod::KeyFile { private_key: id.clone(), public_key }
        },
        None => AuthMethod::Agent,
    }
}

/// The step after trying `tried`: done if it was accepted; after a rejected key
/// file, the agent; after a rejected agent, failure.
pub fn next_auth_step(tried: &AuthMethod, accepted: bool) -> (r: AuthStep)
    ensures
        accepted ==> r matches AuthStep::Authenticated,
        !accepted && tried is KeyFile ==> r matches AuthStep::Try(AuthMethod::Agent),
        !accepted && tried is Agent ==> r matches AuthStep::Failed,
{
    if accepted {
        AuthStep::Authenticated
    } else {
        match tried {
            AuthMethod::KeyFile { .. } => AuthStep::Try(AuthMethod::Agent),
            AuthMethod::Agent => AuthStep::Failed,
        }
    }
}

} // verus!
