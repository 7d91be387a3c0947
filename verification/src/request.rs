//! What is asked of the trust authority, and what is to be run.

use vstd::prelude::*;
use vstd::string::StringSliceAdditionalSpecFns;
use vstd::utf8::encode_utf8;
use crate::flags::{acquire_policy_bits, Flags};

verus! {

/// Why a request could not be built.
#[derive(Clone, Copy, Debug, PartialEq, Eq, Structural)]
pub enum RequestError {
    /// The name of a right holds a zero byte and cannot be passed on.
    InvalidRightName,
    /// The executable is not given by an absolute path.
    RelativePath,
}

/// `bytes` can be passed to the platform as a name: no zero byte is in it.
pub open spec fn passable(bytes: Seq<u8>) -> bool {
    forall|i: int| 0 <= i < bytes.len() ==> bytes[i] != 0
}

/// `path` starts at the root of the file system.
pub open spec fn is_absolute(path: Seq<char>) -> bool {
    path.len() > 0 && path[0] == '/'
}

/// The characters of each string of `items`.
pub open spec fn names(items: Seq<String>) -> Seq<Seq<char>> {
    Seq::new(items.len(), |i: int| items[i]@)
}

/// The name of the right to run a tool as administrator.
pub fn admin_right() -> (name: &'static str)
    ensures
        name@ == "system.privilege.admin"@,
        passable(encode_utf8(name@)),
{
    let name = "system.privilege.admin";
    proof {
        lemma_admin_right_is_passable();
    }
    name
}

/// The administrative right's name is plain ASCII without a zero byte.
pub proof fn lemma_admin_right_is_passable()
    ensures
        passable(encode_utf8("system.privilege.admin"@)),
        "system.privilege.admin"@.len() == 22,
{
    let name = "system.privilege.admin";
    reveal_strlit("system.privilege.admin");
    assert forall|i: int| 0 <= i < name@.len() implies '\0' < #[trigger] name@[i] <= '\u{7f}' by {
        if i < 4 {
            assert(name@[0] == 's' && name@[1] == 'y' && name@[2] == 's' && name@[3] == 't');
        } else if i < 8 {
            assert(name@[4] == 'e' && name@[5] == 'm' && name@[6] == '.' && name@[7] == 'p');
        } else if i < 12 {
            assert(name@[8] == 'r' && name@[9] == 'i' && name@[10] == 'v' && name@[11] == 'i');
        } else if i < 16 {
            assert(name@[12] == 'l' && name@[13] == 'e' && name@[14] == 'g' && name@[15] == 'e');
        } else if i < 20 {
            assert(name@[16] == '.' && name@[17] == 'a' && name@[18] == 'd' && name@[19] == 'm');
        } else {
            assert(name@[20] == 'i' && name@[21] == 'n');
        }
    }
    assert(vstd::string::is_ascii(name));
    vstd::string::is_ascii_spec_bytes(name);
    assert(name.spec_bytes() == encode_utf8(name@));
    assert forall|i: int| 0 <= i < encode_utf8(name@).len() implies encode_utf8(name@)[i]
        != 0 by {
        assert(encode_utf8(name@)[i] == name@[i] as u8);
        assert('\0' < name@[i] <= '\u{7f}');
    }
}

/// The rights that are asked of the trust authority, and the policy under
/// which they are negotiated. Nothing changes it once it is built.
#[derive(Debug)]
pub struct AuthorizationRequest {
    rights: Vec<String>,
    flags: Flags,
}

impl AuthorizationRequest {
    /// The names of the requested rights, in order.
    pub closed spec fn rights(&self) -> Seq<Seq<char>> {
        names(self.rights@)
    }

    /// The bits of the negotiation policy.
    pub closed spec fn policy(&self) -> u32 {
        self.flags@
    }

    #[verifier::type_invariant]
    spec fn well_formed(self) -> bool {
        forall|i: int|
            0 <= i < self.rights@.len() ==> passable(encode_utf8(#[trigger] self.rights@[i]@))
    }

    /// The request for the one right `name`, a name that can be passed on,
    /// under the negotiation policy.
    fn single(name: &str) -> (request: AuthorizationRequest)
        requires
            passable(encode_utf8(name@)),
        ensures
            request.rights() == seq![name@],
            request.policy() == acquire_policy_bits(),
    {
        let mut rights: Vec<String> = Vec::new();
        rights.push(String::from_str(name));
        let request = AuthorizationRequest { rights, flags: Flags::acquire_policy() };
        assert(request.rights() =~= seq![name@]);
        request
    }

    /// The request for the one right `name`, negotiated with a prompt
    /// allowed, ahead of use, and extended to that right and no further.
    /// A name with a zero byte is refused.
    pub fn for_right(name: &str) -> (r: Result<AuthorizationRequest, RequestError>)
        ensures
            r is Ok <==> passable(encode_utf8(name@)),
            r matches Ok(request) ==> request.rights() == seq![name@] && request.policy()
                == acquire_policy_bits(),
            r matches Err(e) ==> e == RequestError::InvalidRightName,
    {
        let bytes = name.as_bytes();
        let mut i: usize = 0;
        while i < bytes.len()
            invariant
                i <= bytes.len(),
                bytes@ == encode_utf8(name@),
                forall|k: int| 0 <= k < i ==> bytes@[k] != 0,
            decreases bytes.len() - i,
        {
            if bytes[i] == 0 {
                return Err(RequestError::InvalidRightName);
            }
            i += 1;
        }
        Ok(AuthorizationRequest::single(name))
    }

    /// The request for the right to run a tool as administrator.
    pub fn administrator() -> (request: AuthorizationRequest)
        ensures
            request.rights() == seq!["system.privilege.admin"@],
            request.policy() == acquire_policy_bits(),
    {
        AuthorizationRequest::single(admin_right())
    }

    /// The names of the requested rights, in order; each can be passed on.
    pub fn right_names(&self) -> (r: &Vec<String>)
        ensures
            names(r@) == self.rights(),
            forall|i: int| 0 <= i < r@.len() ==> passable(encode_utf8(#[trigger] r@[i]@)),
    {
        proof {
            use_type_invariant(self);
        }
        &self.rights
    }

    /// The negotiation policy.
    pub fn flags(&self) -> (r: Flags)
        ensures
            r@ == self.policy(),
    {
        self.flags
    }
}

/// The executable to run, by its absolute path, and its arguments, which are
/// passed on as they are.
#[derive(Debug)]
pub struct ExecutionRequest {
    executable: String,
    args: Vec<String>,
}

impl ExecutionRequest {
    /// The path of the executable.
    pub closed spec fn path(&self) -> Seq<char> {
        self.executable@
    }

    /// The arguments, in order.
    pub closed spec fn arguments(&self) -> Seq<Seq<char>> {
        names(self.args@)
    }

    #[verifier::type_invariant]
    spec fn well_formed(self) -> bool {
        is_absolute(self.executable@)
    }

    /// The request to run `executable` with `args`. A path that does not
    /// start at the root is refused.
    pub fn new(executable: String, args: Vec<String>) -> (r: Result<ExecutionRequest, RequestError>)
        ensures
            r is Ok <==> is_absolute(executable@),
            r matches Ok(request) ==> request.path() == executable@ && request.arguments()
                == names(args@),
            r matches Err(e) ==> e == RequestError::RelativePath,
    {
        if starts_with_char(executable.as_str(), '/') {
            Ok(ExecutionRequest { executable, args })
        } else {
            Err(RequestError::RelativePath)
        }
    }

    /// The path of the executable, which is absolute.
    pub fn executable(&self) -> (r: &String)
        ensures
            r@ == self.path(),
            is_absolute(r@),
    {
        proof {
            use_type_invariant(self);
        }
        &self.executable
    }

    /// The arguments, in order.
    pub fn args(&self) -> (r: &Vec<String>)
        ensures
            names(r@) == self.arguments(),
    {
        &self.args
    }
}

/// Whether `s` begins with the character `c`.
pub fn starts_with_char(s: &str, c: char) -> (r: bool)
    ensures
        r == (s@.len() > 0 && s@[0] == c),
{
    if s.is_empty() {
        false
    } else {
        s.get_char(0) == c
    }
}

} // verus!
