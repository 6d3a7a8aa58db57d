//! The registry and its operations.

use vstd::prelude::*;

use super::identifier::{
    cert_data, cert_id_from_hash, cert_id_of, cert_preimage, issue_data, issue_preimage,
    issued_id_from_hash, issued_id_of, CertId, Hashing, IssuedId,
};
use super::storage::{Account, StorageKey, StorageMap, Stored};

verus! {

/// What a runtime sets for the registry.
pub trait Config: Sized {
    /// The accounts of people and of organizations.
    type AccountId: Account;

    /// The hash function that identifiers are made with.
    type Hashing: Hashing;

    /// A moment in time.
    type Moment: Copy;
}

/// Who asks for an operation.
#[derive(Debug)]
pub enum Origin<A> {
    /// The system itself.
    Root,
    /// An account that signed the request.
    Signed(A),
    /// Nobody.
    Unsigned,
}

/// The origin may not ask for the operation.
#[derive(Clone, Copy, PartialEq, Eq, Debug, Structural)]
pub struct BadOrigin;

/// What is known of an organization.
#[derive(Debug)]
pub struct Organization<A> {
    /// The account that acts for the organization.
    pub admin: A,
    /// Whether the organization is suspended.
    pub suspended: bool,
}

/// What an organization stands for.
pub struct OrganizationModel {
    pub admin: Seq<u8>,
    pub suspended: bool,
}

impl<A: Account> Organization<A> {
    /// What the organization stands for.
    pub open spec fn model(self) -> OrganizationModel {
        OrganizationModel { admin: self.admin.model(), suspended: self.suspended }
    }
}

/// What an optional organization stands for.
pub open spec fn organization_model<A: Account>(org: Option<Organization<A>>) -> Option<
    OrganizationModel,
> {
    match org {
        Some(org) => Some(org.model()),
        None => None,
    }
}

/// An account that may create certificates, with the organizations that it may do so for.
#[derive(Debug)]
pub struct Creator<A> {
    /// The account.
    pub sender: A,
    /// The organizations.
    pub org_ids: Vec<A>,
}

/// What a creator stands for.
pub struct CreatorModel {
    pub sender: Seq<u8>,
    pub org_ids: Seq<Seq<u8>>,
}

impl<A: Account> Creator<A> {
    /// What the creator stands for.
    pub open spec fn model(self) -> CreatorModel {
        CreatorModel {
            sender: self.sender.model(),
            org_ids: self.org_ids@.map_values(|id: A| id.model()),
        }
    }
}

/// What the creator that an origin was recognized as stands for.
pub open spec fn creator_model<A: Account>(creator: Result<Creator<A>, BadOrigin>) -> Option<
    CreatorModel,
> {
    match creator {
        Ok(creator) => Some(creator.model()),
        Err(_) => None,
    }
}

/// A certificate.
#[derive(Debug)]
pub struct CertDetail<A> {
    /// The name of the certificate.
    pub name: Vec<u8>,
    /// The description of the certificate.
    pub description: Vec<u8>,
    /// The organization of the certificate.
    pub org_id: A,
}

/// What a certificate stands for.
pub struct CertDetailModel {
    pub name: Seq<u8>,
    pub description: Seq<u8>,
    pub org_id: Seq<u8>,
}

impl<A: Account> Stored for CertDetail<A> {
    type Model = CertDetailModel;

    open spec fn model(&self) -> CertDetailModel {
        CertDetailModel {
            name: self.name@,
            description: self.description@,
            org_id: self.org_id.model(),
        }
    }

    fn duplicate(&self) -> (r: Self) {
        CertDetail {
            name: self.name.duplicate(),
            description: self.description.duplicate(),
            org_id: self.org_id.duplicate(),
        }
    }
}

/// The proof that a certificate was issued.
pub struct CertProof<T: Config> {
    /// The certificate.
    pub cert_id: CertId,
    /// The recipient, in a form that people can read.
    pub human_id: Vec<u8>,
    /// When the certificate was issued.
    pub time: T::Moment,
}

/// What a proof stands for.
pub struct CertProofModel<T: Config> {
    pub cert_id: Seq<u8>,
    pub human_id: Seq<u8>,
    pub time: T::Moment,
}

impl<T: Config> CertProof<T> {
    /// The proof that the certificate was issued to the recipient at the time.
    pub fn new(cert_id: CertId, human_id: Vec<u8>, time: T::Moment) -> (r: Self)
        ensures
            r.cert_id == cert_id,
            r.human_id == human_id,
            r.time == time,
    {
        CertProof { cert_id, human_id, time }
    }
}

impl<T: Config> Stored for CertProof<T> {
    type Model = CertProofModel<T>;

    open spec fn model(&self) -> CertProofModel<T> {
        CertProofModel { cert_id: self.cert_id@, human_id: self.human_id@, time: self.time }
    }

    fn duplicate(&self) -> (r: Self) {
        CertProof { cert_id: self.cert_id, human_id: self.human_id.duplicate(), time: self.time }
    }
}

impl<T: Config> Stored for Vec<CertProof<T>> {
    type Model = Seq<CertProofModel<T>>;

    open spec fn model(&self) -> Seq<CertProofModel<T>> {
        self@.map_values(|proof_of_issue: CertProof<T>| proof_of_issue.model())
    }

    fn duplicate(&self) -> (r: Self) {
        let mut r: Vec<CertProof<T>> = Vec::new();
        let mut i: usize = 0;
        while i < self.len()
            invariant
                i <= self@.len(),
                r@.len() == i,
                forall|j: int| 0 <= j < i ==> (#[trigger] r@[j]).model() == self@[j].model(),
            decreases self@.len() - i,
        {
            r.push(self[i].duplicate());
            i = i + 1;
        }
        assert(r.model() =~= self.model());
        r
    }
}

/// Why the registry refuses an operation.
#[derive(Clone, Copy, PartialEq, Eq, Debug, Structural)]
pub enum Error {
    /// The object exists already.
    AlreadyExists,
    /// The name is too long.
    TooLong,
    /// The name is too short.
    TooShort,
    /// The object does not exist.
    NotExists,
    /// The origin is not authorized for the operation.
    PermissionDenied,
    /// The identifier exists already.
    IdAlreadyExists,
    /// Some other error.
    Unknown,
}

/// Why an operation fails.
#[derive(Clone, Copy, PartialEq, Eq, Debug, Structural)]
pub enum DispatchError {
    /// The origin may not ask for the operation.
    BadOrigin,
    /// The registry refuses the operation.
    Module(Error),
}

/// What the registry announces.
#[derive(Debug)]
pub enum Event<A> {
    /// A certificate was added: its index, identifier and organization.
    CertAdded(u64, CertId, A),
    /// A certificate was issued: the identifier of the issue, and the recipient's account.
    CertIssued(IssuedId, Option<A>),
}

/// What an event stands for.
pub enum EventModel {
    CertAdded(u64, Seq<u8>, Seq<u8>),
    CertIssued(Seq<u8>, Option<Seq<u8>>),
}

/// What an optional account stands for.
pub open spec fn account_model<A: Account>(account: Option<A>) -> Option<Seq<u8>> {
    match account {
        Some(account) => Some(account.model()),
        None => None,
    }
}

impl<A: Account> Event<A> {
    /// What the event stands for.
    pub open spec fn model(self) -> EventModel {
        match self {
            Event::CertAdded(index, cert_id, org_id) => EventModel::CertAdded(
                index,
                cert_id@,
                org_id.model(),
            ),
            Event::CertIssued(issue_id, acc_handler) => EventModel::CertIssued(
                issue_id@,
                account_model(acc_handler),
            ),
        }
    }
}

/// The fewest bytes of a certificate's name.
pub const MIN_NAME_LEN: usize = 3;

/// The most bytes of a certificate's name.
pub const MAX_NAME_LEN: usize = 100;

/// The number of bytes that the additional data of an issue stays below.
pub const ADDITIONAL_DATA_BOUND: usize = 100;

/// What the registry stands for.
pub struct PalletModel<T: Config> {
    /// The certificates, by identifier.
    pub certificates: Map<Seq<u8>, CertDetailModel>,
    /// The proofs of issue, by organization and identifier.
    pub issued_cert: Map<(Seq<u8>, Seq<u8>), CertProofModel<T>>,
    /// The proofs of issue that accounts hold, by organization and account.
    pub issued_cert_owner: Map<(Seq<u8>, Seq<u8>), Seq<CertProofModel<T>>>,
    /// An index of accounts.
    pub account_id_index: Option<u32>,
    /// The index of the last certificate.
    pub cert_id_index: Option<u64>,
    /// What was announced.
    pub events: Seq<EventModel>,
}

/// The arguments of `create_cert`.
pub struct CreateArgs {
    /// What the origin was recognized as.
    pub creator: Option<CreatorModel>,
    /// The organization to create for.
    pub org_id: Seq<u8>,
    /// The name of the certificate.
    pub name: Seq<u8>,
    /// The description of the certificate.
    pub description: Seq<u8>,
    /// What is known of the organization.
    pub org: Option<OrganizationModel>,
}

/// The arguments of `issue_cert`.
pub struct IssueArgs<T: Config> {
    /// The account that signed the request, where one did.
    pub signer: Option<Seq<u8>>,
    /// The organization that issues.
    pub org_id: Seq<u8>,
    /// The certificate.
    pub cert_id: Seq<u8>,
    /// The recipient.
    pub recipient: Seq<u8>,
    /// What else the issue is for.
    pub additional_data: Seq<u8>,
    /// The account of the recipient, where there is one.
    pub acc_handler: Option<Seq<u8>>,
    /// What is known of the organization.
    pub org: Option<OrganizationModel>,
    /// The organization as the signer has access to it.
    pub access: Option<OrganizationModel>,
    /// When the certificate is issued.
    pub now: T::Moment,
}

impl<T: Config> IssueArgs<T> {
    /// The identifier of the issue.
    pub open spec fn issue_id(self) -> Seq<u8> {
        issued_id_of(
            T::Hashing::digest(
                issue_preimage(self.org_id, self.cert_id, self.recipient, self.additional_data),
            ),
        )
    }

    /// The proof of the issue.
    pub open spec fn certificate_proof(self) -> CertProofModel<T> {
        CertProofModel { cert_id: self.cert_id, human_id: self.recipient, time: self.now }
    }
}

impl<T: Config> PalletModel<T> {
    /// The index of the next certificate.
    pub open spec fn next_index(self) -> u64 {
        match self.cert_id_index {
            Some(index) => if index < u64::MAX {
                (index + 1) as u64
            } else {
                u64::MAX
            },
            None => 1,
        }
    }

    /// The identifier that a certificate gets when it is created next.
    pub open spec fn next_cert_id(self, name: Seq<u8>, description: Seq<u8>) -> Seq<u8> {
        cert_id_of(T::Hashing::digest(cert_preimage(self.next_index(), name, description)))
    }

    /// What `create_cert` returns.
    pub open spec fn create_outcome(self, args: CreateArgs) -> Result<(), DispatchError> {
        if args.name.len() < MIN_NAME_LEN {
            Err(DispatchError::Module(Error::TooShort))
        } else if args.name.len() > MAX_NAME_LEN {
            Err(DispatchError::Module(Error::TooLong))
        } else if args.creator is None {
            Err(DispatchError::BadOrigin)
        } else if !args.creator->0.org_ids.contains(args.org_id) {
            Err(DispatchError::Module(Error::PermissionDenied))
        } else if args.org is None {
            Err(DispatchError::Module(Error::NotExists))
        } else if args.org->0.admin != args.creator->0.sender {
            Err(DispatchError::Module(Error::PermissionDenied))
        } else if self.certificates.contains_key(self.next_cert_id(args.name, args.description)) {
            Err(DispatchError::Module(Error::IdAlreadyExists))
        } else {
            Ok(())
        }
    }

    /// What `create_cert` leaves. A refused request leaves everything as it was, save that the
    /// index moves on where the identifier exists already.
    pub open spec fn create_result(self, args: CreateArgs) -> PalletModel<T> {
        let cert_id = self.next_cert_id(args.name, args.description);
        match self.create_outcome(args) {
            Ok(_) => PalletModel {
                certificates: self.certificates.insert(
                    cert_id,
                    CertDetailModel {
                        name: args.name,
                        description: args.description,
                        org_id: args.org_id,
                    },
                ),
                cert_id_index: Some(self.next_index()),
                events: self.events.push(
                    EventModel::CertAdded(self.next_index(), cert_id, args.org_id),
                ),
                ..self
            },
            Err(DispatchError::Module(Error::IdAlreadyExists)) => PalletModel {
                cert_id_index: Some(self.next_index()),
                ..self
            },
            Err(_) => self,
        }
    }

    /// What `issue_cert` returns.
    pub open spec fn issue_outcome(self, args: IssueArgs<T>) -> Result<(), DispatchError> {
        if args.signer is None {
            Err(DispatchError::BadOrigin)
        } else if !self.certificates.contains_key(args.cert_id) {
            Err(DispatchError::Module(Error::NotExists))
        } else if args.additional_data.len() >= ADDITIONAL_DATA_BOUND {
            Err(DispatchError::Module(Error::TooLong))
        } else if args.org is None {
            Err(DispatchError::Module(Error::Unknown))
        } else if args.org->0.admin != args.signer->0 {
            Err(DispatchError::Module(Error::PermissionDenied))
        } else if args.access is None || args.access->0.suspended {
            Err(DispatchError::Module(Error::PermissionDenied))
        } else if self.issued_cert.contains_key((args.org_id, args.issue_id())) {
            Err(DispatchError::Module(Error::AlreadyExists))
        } else if args.acc_handler is Some && !self.issued_cert_owner.contains_key(
            (args.org_id, args.acc_handler->0),
        ) {
            Err(DispatchError::Module(Error::Unknown))
        } else {
            Ok(())
        }
    }

    /// What `issue_cert` leaves. A refused request leaves everything as it was.
    pub open spec fn issue_result(self, args: IssueArgs<T>) -> PalletModel<T> {
        match self.issue_outcome(args) {
            Ok(_) => PalletModel {
                issued_cert: self.issued_cert.insert(
                    (args.org_id, args.issue_id()),
                    args.certificate_proof(),
                ),
                issued_cert_owner: match args.acc_handler {
                    Some(acc_handler) => self.issued_cert_owner.insert(
                        (args.org_id, acc_handler),
                        self.issued_cert_owner[(args.org_id, acc_handler)].push(
                            args.certificate_proof(),
                        ),
                    ),
                    None => self.issued_cert_owner,
                },
                events: self.events.push(
                    EventModel::CertIssued(args.issue_id(), args.acc_handler),
                ),
                ..self
            },
            Err(_) => self,
        }
    }
}

/// The account that signed the request, where one did.
pub open spec fn signer_model<A: Account>(origin: Origin<A>) -> Option<Seq<u8>> {
    match origin {
        Origin::Signed(who) => Some(who.model()),
        _ => None,
    }
}

/// The account that signed the request.
pub fn ensure_signed<A>(origin: Origin<A>) -> (r: Result<A, BadOrigin>)
    ensures
        r is Ok <==> origin is Signed,
        r matches Ok(who) ==> origin == Origin::Signed(who),
{
    match origin {
        Origin::Signed(who) => Ok(who),
        _ => Err(BadOrigin),
    }
}

/// The registry.
pub struct Pallet<T: Config> {
    /// The certificates, by identifier.
    pub certificates: StorageMap<CertId, CertDetail<T::AccountId>>,
    /// The proofs of issue, by organization and identifier.
    pub issued_cert: StorageMap<(T::AccountId, IssuedId), CertProof<T>>,
    /// The proofs of issue that accounts hold, by organization and account.
    pub issued_cert_owner: StorageMap<(T::AccountId, T::AccountId), Vec<CertProof<T>>>,
    /// An index of accounts.
    pub account_id_index: Option<u32>,
    /// The index of the last certificate.
    pub cert_id_index: Option<u64>,
    /// What was announced.
    pub events: Vec<Event<T::AccountId>>,
}

impl<T: Config> Pallet<T> {
    /// What the registry stands for.
    pub open spec fn model(self) -> PalletModel<T> {
        PalletModel {
            certificates: self.certificates.model(),
            issued_cert: self.issued_cert.model(),
            issued_cert_owner: self.issued_cert_owner.model(),
            account_id_index: self.account_id_index,
            cert_id_index: self.cert_id_index,
            events: self.events@.map_values(|event: Event<T::AccountId>| event.model()),
        }
    }

    /// The empty registry.
    pub fn new() -> (r: Self)
        ensures
            r.model() == (PalletModel::<T> {
                certificates: Map::empty(),
                issued_cert: Map::empty(),
                issued_cert_owner: Map::empty(),
                account_id_index: None,
                cert_id_index: None,
                events: seq![],
            }),
    {
        let r = Pallet {
            certificates: StorageMap::new(),
            issued_cert: StorageMap::new(),
            issued_cert_owner: StorageMap::new(),
            account_id_index: None,
            cert_id_index: None,
            events: Vec::new(),
        };
        assert(r.model().events =~= seq![]);
        r
    }

    /// Creates a certificate.
    ///
    /// `creator` is what the origin was recognized as, and `org` is what is known of the
    /// organization `org_id`. The creator has to act for the organization and be its admin.
    pub fn create_cert(
        &mut self,
        creator: Result<Creator<T::AccountId>, BadOrigin>,
        org_id: T::AccountId,
        name: Vec<u8>,
        description: Vec<u8>,
        org: Option<Organization<T::AccountId>>,
    ) -> (r: Result<(), DispatchError>)
        ensures
            ({
                let args = CreateArgs {
                    creator: creator_model(creator),
                    org_id: org_id.model(),
                    name: name@,
                    description: description@,
                    org: organization_model(org),
                };
                &&& r == old(self).model().create_outcome(args)
                &&& final(self).model() == old(self).model().create_result(args)
            }),
    {
        let ghost args = CreateArgs {
            creator: creator_model(creator),
            org_id: org_id.model(),
            name: name@,
            description: description@,
            org: organization_model(org),
        };
        let ghost before = self.model();

        if name.len() < MIN_NAME_LEN {
            return Err(DispatchError::Module(Error::TooShort));
        }
        if name.len() > MAX_NAME_LEN {
            return Err(DispatchError::Module(Error::TooLong));
        }
        let creator = match creator {
            Ok(creator) => creator,
            Err(_) => {
                return Err(DispatchError::BadOrigin);
            },
        };
        if !Self::contains_account(&creator.org_ids, &org_id) {
            return Err(DispatchError::Module(Error::PermissionDenied));
        }
        let org = match org {
            Some(org) => org,
            None => {
                return Err(DispatchError::Module(Error::NotExists));
            },
        };
        if !org.admin.same(&creator.sender) {
            return Err(DispatchError::Module(Error::PermissionDenied));
        }
        let cert_id: CertId = self.next_cert_id(name.as_slice(), description.as_slice());
        let index: u64 = self.increment_index();
        if self.certificates.contains_key(&cert_id) {
            return Err(DispatchError::Module(Error::IdAlreadyExists));
        }
        let detail = CertDetail { name, org_id: org_id.duplicate(), description };
        self.certificates.insert(cert_id, detail);
        let event = Event::CertAdded(index, cert_id, org_id);
        self.deposit_event(event);
        assert(self.model() == before.create_result(args));
        Ok(())
    }

    /// Issues a certificate to a recipient.
    ///
    /// `org` is what is known of the organization `org_id`, and `access` is the organization as
    /// the signer has access to it. The signer has to be the admin of the organization, which
    /// may not be suspended. An account that is given as the recipient's has to hold proofs of
    /// the organization already.
    pub fn issue_cert(
        &mut self,
        origin: Origin<T::AccountId>,
        org_id: T::AccountId,
        cert_id: CertId,
        recipient: Vec<u8>,
        additional_data: Vec<u8>,
        acc_handler: Option<T::AccountId>,
        org: Option<Organization<T::AccountId>>,
        access: Option<Organization<T::AccountId>>,
        now: T::Moment,
    ) -> (r: Result<(), DispatchError>)
        ensures
            ({
                let args = IssueArgs {
                    signer: signer_model(origin),
                    org_id: org_id.model(),
                    cert_id: cert_id@,
                    recipient: recipient@,
                    additional_data: additional_data@,
                    acc_handler: account_model(acc_handler),
                    org: organization_model(org),
                    access: organization_model(access),
                    now,
                };
                &&& r == old(self).model().issue_outcome(args)
                &&& final(self).model() == old(self).model().issue_result(args)
            }),
    {
        let ghost args = IssueArgs {
            signer: signer_model(origin),
            org_id: org_id.model(),
            cert_id: cert_id@,
            recipient: recipient@,
            additional_data: additional_data@,
            acc_handler: account_model(acc_handler),
            org: organization_model(org),
            access: organization_model(access),
            now,
        };
        let ghost before = self.model();

        let sender = match ensure_signed(origin) {
            Ok(sender) => sender,
            Err(_) => {
                return Err(DispatchError::BadOrigin);
            },
        };
        if !self.certificates.contains_key(&cert_id) {
            return Err(DispatchError::Module(Error::NotExists));
        }
        if additional_data.len() >= ADDITIONAL_DATA_BOUND {
            return Err(DispatchError::Module(Error::TooLong));
        }
        let org = match org {
            Some(org) => org,
            None => {
                return Err(DispatchError::Module(Error::Unknown));
            },
        };
        if !org.admin.same(&sender) {
            return Err(DispatchError::Module(Error::PermissionDenied));
        }
        match Self::ensure_org_access(access) {
            Ok(_) => {},
            Err(error) => {
                return Err(DispatchError::Module(error));
            },
        }

        let issue_id: IssuedId = Self::generate_issued_id(
            issue_data(
                org_id.as_bytes(),
                &cert_id,
                recipient.as_slice(),
                additional_data.as_slice(),
            ),
        );
        let key = (org_id, issue_id);
        if self.issued_cert.contains_key(&key) {
            return Err(DispatchError::Module(Error::AlreadyExists));
        }
        let certificate_proof = CertProof::new(cert_id, recipient, now);
        assert(certificate_proof.model() == args.certificate_proof());

        let acc_handler = match acc_handler {
            Some(acc_handler) => {
                let owner = (key.0.duplicate(), acc_handler.duplicate());
                let mut held = match self.issued_cert_owner.get(&owner) {
                    Some(held) => held,
                    None => {
                        return Err(DispatchError::Module(Error::Unknown));
                    },
                };
                let ghost held_before = held.model();
                held.push(certificate_proof.duplicate());
                assert(held.model() =~= held_before.push(args.certificate_proof()));
                self.issued_cert_owner.insert(owner, held);
                Some(acc_handler)
            },
            None => None,
        };

        let event = Event::CertIssued(key.1.duplicate(), acc_handler);
        self.issued_cert.insert(key, certificate_proof);
        self.deposit_event(event);
        assert(self.model() == before.issue_result(args));
        Ok(())
    }

    /// The certificate of an identifier.
    pub fn get(&self, id: &CertId) -> (r: Option<CertDetail<T::AccountId>>)
        ensures
            r is Some <==> self.model().certificates.contains_key(id@),
            r matches Some(detail) ==> detail.model() == self.model().certificates[id@],
    {
        self.certificates.get(id)
    }

    /// The proof of an issue.
    pub fn issued_cert(&self, org_id: &T::AccountId, issue_id: &IssuedId) -> (r: Option<CertProof<T>>)
        ensures
            r is Some <==> self.model().issued_cert.contains_key((org_id.model(), issue_id@)),
            r matches Some(found) ==> found.model() == self.model().issued_cert[(
                org_id.model(),
                issue_id@,
            )],
    {
        self.issued_cert.get(&(org_id.duplicate(), issue_id.duplicate()))
    }

    /// The proofs that an account holds of an organization.
    pub fn issued_cert_owner(&self, org_id: &T::AccountId, acc_handler: &T::AccountId) -> (r: Option<
        Vec<CertProof<T>>,
    >)
        ensures
            r is Some <==> self.model().issued_cert_owner.contains_key((org_id.model(), acc_handler.model())),
            r matches Some(held) ==> held.model() == self.model().issued_cert_owner[(
                org_id.model(),
                acc_handler.model(),
            )],
    {
        self.issued_cert_owner.get(&(org_id.duplicate(), acc_handler.duplicate()))
    }

    /// The index of accounts.
    pub fn account_id_index(&self) -> (r: Option<u32>)
        ensures
            r == self.account_id_index,
    {
        self.account_id_index
    }

    /// The organization as an account has access to it, which may not be suspended.
    pub fn ensure_org_access(access: Option<Organization<T::AccountId>>) -> (r: Result<Organization<T::AccountId>, Error>)
        ensures
            r == match access {
                Some(org) if !org.suspended => Ok::<_, Error>(org),
                _ => Err::<Organization<T::AccountId>, _>(Error::PermissionDenied),
            },
    {
        match access {
            Some(org) => if org.suspended {
                Err(Error::PermissionDenied)
            } else {
                Ok(org)
            },
            None => Err(Error::PermissionDenied),
        }
    }

    /// Moves the index of certificates on by one, unless it is the largest, and returns it.
    pub fn increment_index(&mut self) -> (r: u64)
        ensures
            r == old(self).model().next_index(),
            final(self).model() == (PalletModel {
                cert_id_index: Some(r),
                ..old(self).model()
            }),
    {
        let next_id: u64 = self.next_index();
        self.cert_id_index = Some(next_id);
        next_id
    }

    /// The index of the next certificate.
    fn next_index(&self) -> (r: u64)
        ensures
            r == self.model().next_index(),
    {
        let index: u64 = match self.cert_id_index {
            Some(index) => index,
            None => 0,
        };
        index.saturating_add(1)
    }

    /// The identifier that a certificate gets when it is created next.
    pub fn next_cert_id(&self, name: &[u8], description: &[u8]) -> (r: CertId)
        ensures
            r@ == self.model().next_cert_id(name@, description@),
    {
        Self::generate_hash(cert_data(self.next_index(), name, description))
    }

    /// The identifier of a certificate with the given data.
    pub fn generate_hash(data: Vec<u8>) -> (r: CertId)
        ensures
            r@ == cert_id_of(T::Hashing::digest(data@)),
    {
        cert_id_from_hash(T::Hashing::encoded_hash(data.as_slice()).as_slice())
    }

    /// The identifier of an issue with the given data: the hash of the data in base 58, cut to
    /// its first five and its last five characters.
    pub fn generate_issued_id(data: Vec<u8>) -> (r: IssuedId)
        ensures
            r@ == issued_id_of(T::Hashing::digest(data@)),
            r@.len() == 10,
    {
        issued_id_from_hash(T::Hashing::encoded_hash(data.as_slice()).as_slice())
    }

    fn deposit_event(&mut self, event: Event<T::AccountId>)
        ensures
            final(self).model() == (PalletModel {
                events: old(self).model().events.push(event.model()),
                ..old(self).model()
            }),
    {
        let ghost before = self.model();
        self.events.push(event);
        assert(self.model().events =~= before.events.push(event.model()));
    }

    fn contains_account(accounts: &Vec<T::AccountId>, account: &T::AccountId) -> (r: bool)
        ensures
            r == accounts@.map_values(|id: T::AccountId| id.model()).contains(account.model()),
    {
        let ghost ids = accounts@.map_values(|id: T::AccountId| id.model());
        let mut i: usize = 0;
        while i < accounts.len()
            invariant
                i <= accounts@.len(),
                ids == accounts@.map_values(|id: T::AccountId| id.model()),
                forall|j: int| 0 <= j < i ==> ids[j] != account.model(),
            decreases accounts@.len() - i,
        {
            if accounts[i].same(account) {
                assert(ids[i as int] == account.model());
                return true;
            }
            i = i + 1;
        }
        false
    }
}

} // verus!
