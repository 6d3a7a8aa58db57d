//! What holds of the registry as a whole.

use vstd::prelude::*;

use super::bytes::{le_bytes, le_value, lemma_le_bytes_injective, lemma_le_bytes_len};
use super::identifier::{
    cert_preimage, issued_id_of, law_certificate_data_holds_all_parts, CertId, Hashing, IssuedId,
};
use super::pallet::{
    account_model, creator_model, organization_model, signer_model, BadOrigin, CertDetail,
    CertDetailModel, CertProof, CertProofModel, Config, CreateArgs, Creator, DispatchError, Error,
    Event, EventModel, IssueArgs, Organization, Origin, Pallet, PalletModel, ADDITIONAL_DATA_BOUND,
    MAX_NAME_LEN, MIN_NAME_LEN,
};
use super::storage::{Account, Stored};

verus! {

/// An operation of the registry.
pub enum Operation<T: Config> {
    Create(CreateArgs),
    Issue(IssueArgs<T>),
}

impl<T: Config> PalletModel<T> {
    /// What an operation returns.
    pub open spec fn outcome(self, operation: Operation<T>) -> Result<(), DispatchError> {
        match operation {
            Operation::Create(args) => self.create_outcome(args),
            Operation::Issue(args) => self.issue_outcome(args),
        }
    }

    /// What an operation leaves.
    pub open spec fn after(self, operation: Operation<T>) -> PalletModel<T> {
        match operation {
            Operation::Create(args) => self.create_result(args),
            Operation::Issue(args) => self.issue_result(args),
        }
    }

    /// What a list of operations leaves.
    pub open spec fn after_all(self, operations: Seq<Operation<T>>) -> PalletModel<T>
        decreases operations.len(),
    {
        if operations.len() == 0 {
            self
        } else {
            self.after_all(operations.drop_last()).after(operations.last())
        }
    }

    /// Whether the proofs speak of what there is: each issued certificate exists, and each proof
    /// that an account holds is one that its organization issued.
    pub open spec fn consistent(self) -> bool {
        &&& forall|key: (Seq<u8>, Seq<u8>)| #[trigger]
            self.issued_cert.contains_key(key) ==> self.certificates.contains_key(
                self.issued_cert[key].cert_id,
            )
        &&& forall|key: (Seq<u8>, Seq<u8>), i: int|
            self.issued_cert_owner.contains_key(key) && 0 <= i < self.issued_cert_owner[key].len()
                ==> self.has_issued(key.0, #[trigger] self.issued_cert_owner[key][i])
    }

    /// Whether the organization issued with the given proof.
    pub open spec fn has_issued(self, org_id: Seq<u8>, certificate_proof: CertProofModel<T>) -> bool {
        exists|issue_id: Seq<u8>|
            {
                &&& #[trigger] self.issued_cert.contains_key((org_id, issue_id))
                &&& self.issued_cert[(org_id, issue_id)] == certificate_proof
            }
    }
}

/// A certificate that was created is found under its identifier, with its name, description and
/// organization.
pub proof fn law_created_certificate_is_found<T: Config>(pallet: PalletModel<T>, args: CreateArgs)
    requires
        pallet.create_outcome(args) is Ok,
    ensures
        ({
            let cert_id = pallet.next_cert_id(args.name, args.description);
            let after = pallet.create_result(args);
            &&& !pallet.certificates.contains_key(cert_id)
            &&& after.certificates.contains_key(cert_id)
            &&& after.certificates[cert_id] == (CertDetailModel {
                name: args.name,
                description: args.description,
                org_id: args.org_id,
            })
        }),
{
}

/// A certificate that was issued is found under its organization and identifier.
pub proof fn law_issued_certificate_is_found<T: Config>(pallet: PalletModel<T>, args: IssueArgs<T>)
    requires
        pallet.issue_outcome(args) is Ok,
    ensures
        ({
            let key = (args.org_id, args.issue_id());
            let after = pallet.issue_result(args);
            &&& !pallet.issued_cert.contains_key(key)
            &&& after.issued_cert.contains_key(key)
            &&& after.issued_cert[key] == args.certificate_proof()
        }),
{
}

/// An account that a certificate is issued to holds the proof after those that it held before.
pub proof fn law_holder_is_given_the_proof<T: Config>(
    pallet: PalletModel<T>,
    args: IssueArgs<T>,
    acc_handler: Seq<u8>,
)
    requires
        pallet.issue_outcome(args) is Ok,
        args.acc_handler == Some(acc_handler),
    ensures
        ({
            let key = (args.org_id, acc_handler);
            let after = pallet.issue_result(args);
            &&& after.issued_cert_owner.contains_key(key)
            &&& after.issued_cert_owner[key] == pallet.issued_cert_owner[key].push(
                args.certificate_proof(),
            )
        }),
{
}

/// Proofs that accounts hold are never changed or removed.
pub proof fn law_held_proofs_are_kept<T: Config>(
    pallet: PalletModel<T>,
    operation: Operation<T>,
    key: (Seq<u8>, Seq<u8>),
)
    requires
        pallet.issued_cert_owner.contains_key(key),
    ensures
        pallet.after(operation).issued_cert_owner.contains_key(key),
        pallet.issued_cert_owner[key].is_prefix_of(pallet.after(operation).issued_cert_owner[key]),
{
    assert(pallet.issued_cert_owner[key].is_prefix_of(pallet.issued_cert_owner[key]));
}

/// Certificates and proofs of issue are never changed or removed.
pub proof fn law_records_are_permanent<T: Config>(pallet: PalletModel<T>, operation: Operation<T>)
    ensures
        pallet.certificates.submap_of(pallet.after(operation).certificates),
        pallet.issued_cert.submap_of(pallet.after(operation).issued_cert),
{
}

/// Certificates and proofs of issue are never changed or removed, however many operations follow.
pub proof fn law_records_stay_permanent<T: Config>(pallet: PalletModel<T>, operations: Seq<Operation<T>>)
    ensures
        pallet.certificates.submap_of(pallet.after_all(operations).certificates),
        pallet.issued_cert.submap_of(pallet.after_all(operations).issued_cert),
    decreases operations.len(),
{
    if operations.len() > 0 {
        let before = operations.drop_last();
        law_records_stay_permanent(pallet, before);
        let middle = pallet.after_all(before);
        let after = middle.after(operations.last());
        law_records_are_permanent(middle, operations.last());
        assert forall|key: (Seq<u8>, Seq<u8>)| #[trigger]
            pallet.issued_cert.contains_key(key) implies after.issued_cert.contains_key(key)
            && after.issued_cert[key] == pallet.issued_cert[key] by {
            assert(middle.issued_cert.contains_key(key));
        }
    }
}

/// A refused operation leaves the registry as it was, save that a certificate whose identifier
/// exists already uses up an index.
pub proof fn law_refused_operation_changes_nothing<T: Config>(
    pallet: PalletModel<T>,
    operation: Operation<T>,
)
    requires
        pallet.outcome(operation) is Err,
    ensures
        pallet.outcome(operation) != Err::<(), _>(DispatchError::Module(Error::IdAlreadyExists))
            ==> pallet.after(operation) == pallet,
        pallet.after(operation) == (PalletModel {
            cert_id_index: pallet.after(operation).cert_id_index,
            ..pallet
        }),
{
}

/// Only the admin of an organization, recognized as acting for it, creates its certificates, and
/// their names have between three and one hundred bytes.
pub proof fn law_only_the_admin_creates<T: Config>(pallet: PalletModel<T>, args: CreateArgs)
    requires
        pallet.create_outcome(args) is Ok,
    ensures
        args.creator matches Some(creator) && args.org matches Some(org) && {
            &&& creator.org_ids.contains(args.org_id)
            &&& org.admin == creator.sender
        },
        MIN_NAME_LEN <= args.name.len() <= MAX_NAME_LEN,
{
}

/// Only the admin of an organization issues for it, and only while it is not suspended.
pub proof fn law_only_the_admin_issues<T: Config>(pallet: PalletModel<T>, args: IssueArgs<T>)
    requires
        pallet.issue_outcome(args) is Ok,
    ensures
        args.org matches Some(org) && args.signer == Some(org.admin),
        args.access matches Some(org) && !org.suspended,
        pallet.certificates.contains_key(args.cert_id),
{
}

/// Once a certificate was created, the admin of an organization that is not suspended can issue it
/// to someone, whatever came between, where the same was not issued before.
pub proof fn law_admin_can_issue_a_created_certificate<T: Config>(
    pallet: PalletModel<T>,
    created: CreateArgs,
    between: Seq<Operation<T>>,
    args: IssueArgs<T>,
)
    requires
        pallet.create_outcome(created) is Ok,
        args.cert_id == pallet.next_cert_id(created.name, created.description),
        args.org matches Some(org) && args.signer == Some(org.admin),
        args.access matches Some(org) && !org.suspended,
        args.additional_data.len() < ADDITIONAL_DATA_BOUND,
        args.acc_handler is None,
        !pallet.create_result(created).after_all(between).issued_cert.contains_key(
            (args.org_id, args.issue_id()),
        ),
    ensures
        pallet.create_result(created).after_all(between).issue_outcome(args) == Ok::<
            (),
            DispatchError,
        >(()),
{
    let after = pallet.create_result(created);
    law_created_certificate_is_found(pallet, created);
    law_records_stay_permanent(after, between);
    assert(after.certificates.contains_key(args.cert_id));
}

/// What was issued is not issued again: a request for the same organization, certificate,
/// recipient and data is refused, whatever came between.
pub proof fn law_nothing_is_issued_twice<T: Config>(
    pallet: PalletModel<T>,
    first: IssueArgs<T>,
    between: Seq<Operation<T>>,
    second: IssueArgs<T>,
)
    requires
        pallet.issue_outcome(first) is Ok,
        second.org_id == first.org_id,
        second.cert_id == first.cert_id,
        second.recipient == first.recipient,
        second.additional_data == first.additional_data,
    ensures
        ({
            let later = pallet.issue_result(first).after_all(between);
            &&& later.issue_outcome(second) is Err
            &&& second.org == first.org && second.signer == first.signer && second.access
                == first.access ==> later.issue_outcome(second) == Err::<(), _>(
                DispatchError::Module(Error::AlreadyExists),
            )
        }),
{
    let issued = pallet.issue_result(first);
    law_records_stay_permanent(issued, between);
    assert(issued.issued_cert.contains_key((first.org_id, first.issue_id())));
    assert(issued.certificates.contains_key(first.cert_id));
}

/// No operation makes an account the holder of proofs of an organization that it held none of.
pub proof fn law_holders_are_fixed<T: Config>(pallet: PalletModel<T>, operation: Operation<T>)
    ensures
        pallet.after(operation).issued_cert_owner.dom() == pallet.issued_cert_owner.dom(),
{
    assert(pallet.after(operation).issued_cert_owner.dom() =~= pallet.issued_cert_owner.dom());
}

/// An issue to an account that holds no proofs of the organization is refused.
pub proof fn law_issue_to_a_new_holder_is_refused<T: Config>(pallet: PalletModel<T>, args: IssueArgs<T>)
    requires
        args.acc_handler matches Some(acc_handler) && !pallet.issued_cert_owner.contains_key(
            (args.org_id, acc_handler),
        ),
    ensures
        pallet.issue_outcome(args) is Err,
{
}

/// The empty registry is consistent.
pub proof fn law_empty_registry_is_consistent<T: Config>(pallet: PalletModel<T>)
    requires
        pallet.issued_cert == Map::<(Seq<u8>, Seq<u8>), CertProofModel<T>>::empty(),
        pallet.issued_cert_owner == Map::<
            (Seq<u8>, Seq<u8>),
            Seq<CertProofModel<T>>,
        >::empty(),
    ensures
        pallet.consistent(),
{
}

/// Every operation keeps the registry consistent.
pub proof fn law_operations_keep_consistency<T: Config>(pallet: PalletModel<T>, operation: Operation<T>)
    requires
        pallet.consistent(),
    ensures
        pallet.after(operation).consistent(),
{
    let after = pallet.after(operation);
    assert forall|key: (Seq<u8>, Seq<u8>)| #[trigger]
        after.issued_cert.contains_key(key) implies after.certificates.contains_key(
        after.issued_cert[key].cert_id,
    ) by {
        if pallet.issued_cert.contains_key(key) {
            assert(after.issued_cert[key] == pallet.issued_cert[key]);
        }
    }
    assert forall|key: (Seq<u8>, Seq<u8>), i: int|
        after.issued_cert_owner.contains_key(key) && 0 <= i
            < after.issued_cert_owner[key].len() implies after.has_issued(
        key.0,
        #[trigger] after.issued_cert_owner[key][i],
    ) by {
        let held = after.issued_cert_owner[key][i];
        if pallet.issued_cert_owner.contains_key(key) && i < pallet.issued_cert_owner[key].len() {
            assert(pallet.has_issued(key.0, pallet.issued_cert_owner[key][i]));
            assert(held == pallet.issued_cert_owner[key][i]);
            let issue_id = choose|issue_id: Seq<u8>|
                {
                    &&& #[trigger] pallet.issued_cert.contains_key((key.0, issue_id))
                    &&& pallet.issued_cert[(key.0, issue_id)] == held
                };
            assert(after.issued_cert.contains_key((key.0, issue_id)));
            assert(after.issued_cert[(key.0, issue_id)] == held);
        } else {
            match operation {
                Operation::Issue(args) => {
                    assert(after.issued_cert.contains_key((args.org_id, args.issue_id())));
                },
                Operation::Create(_) => {},
            }
        }
    }
}

/// A registry that was consistent stays so, however many operations follow.
pub proof fn law_registry_stays_consistent<T: Config>(pallet: PalletModel<T>, operations: Seq<Operation<T>>)
    requires
        pallet.consistent(),
    ensures
        pallet.after_all(operations).consistent(),
    decreases operations.len(),
{
    if operations.len() > 0 {
        law_registry_stays_consistent(pallet, operations.drop_last());
        law_operations_keep_consistency(
            pallet.after_all(operations.drop_last()),
            operations.last(),
        );
    }
}

/// A created certificate takes the next index, which is above all earlier ones until the largest
/// is reached, and no index ever goes back.
pub proof fn law_index_moves_on<T: Config>(pallet: PalletModel<T>, operation: Operation<T>)
    ensures
        pallet.cert_id_index matches Some(index) ==> {
            &&& pallet.after(operation).cert_id_index matches Some(later) && index <= later
            &&& operation is Create && pallet.outcome(operation) is Ok && index < u64::MAX
                ==> pallet.after(operation).cert_id_index->0 == index + 1
        },
{
}

/// Certificates with different indices have different data to hash, whatever their names and
/// descriptions are.
pub proof fn law_indices_tell_certificates_apart(
    first: u64,
    first_name: Seq<u8>,
    first_description: Seq<u8>,
    second: u64,
    second_name: Seq<u8>,
    second_description: Seq<u8>,
)
    requires
        first != second,
    ensures
        cert_preimage(first, first_name, first_description) != cert_preimage(
            second,
            second_name,
            second_description,
        ),
{
    let a = cert_preimage(first, first_name, first_description);
    let b = cert_preimage(second, second_name, second_description);
    lemma_le_bytes_len(first as nat, 8);
    lemma_le_bytes_len(second as nat, 8);
    if a == b {
        assert(a.take(8) =~= le_bytes(first as nat, 8));
        assert(b.take(8) =~= le_bytes(second as nat, 8));
        assert(vstd::arithmetic::power::pow(256, 8) > u64::MAX) by {
            reveal(vstd::arithmetic::power::pow);
            reveal_with_fuel(vstd::arithmetic::power::pow, 9);
        }
        lemma_le_bytes_injective(first as nat, second as nat, 8);
    }
}

/// An operation that succeeds announces itself once, and a refused one announces nothing.
pub proof fn law_success_is_announced_once<T: Config>(pallet: PalletModel<T>, operation: Operation<T>)
    ensures
        pallet.outcome(operation) is Err ==> pallet.after(operation).events == pallet.events,
        pallet.outcome(operation) is Ok ==> pallet.after(operation).events == pallet.events.push(
            match operation {
                Operation::Create(args) => EventModel::CertAdded(
                    pallet.next_index(),
                    pallet.next_cert_id(args.name, args.description),
                    args.org_id,
                ),
                Operation::Issue(args) => EventModel::CertIssued(
                    args.issue_id(),
                    args.acc_handler,
                ),
            },
        ),
{
}

/// A creation succeeds exactly where the name has three to one hundred bytes, the origin was
/// recognized as acting for the organization and is its admin, and the next identifier is free. The
/// description does not matter.
pub proof fn law_creation_succeeds_exactly_for_the_admin<T: Config>(
    pallet: PalletModel<T>,
    args: CreateArgs,
)
    ensures
        pallet.create_outcome(args) is Ok <==> {
            &&& 3 <= args.name.len() <= 100
            &&& args.creator is Some
            &&& exists|i: int|
                0 <= i < args.creator->0.org_ids.len() && args.creator->0.org_ids[i] == args.org_id
            &&& args.org is Some
            &&& args.org->0.admin == args.creator->0.sender
            &&& !pallet.certificates.contains_key(pallet.next_cert_id(args.name, args.description))
        },
{
}

/// Each refusal of a creation has its reason, and the first that applies counts.
pub proof fn law_refused_creation_has_its_reason<T: Config>(
    pallet: PalletModel<T>,
    args: CreateArgs,
)
    ensures
        ({
            let outcome = pallet.create_outcome(args);
            let named = 3 <= args.name.len() <= 100;
            let acts = args.creator is Some && args.creator->0.org_ids.contains(args.org_id);
            let admin = args.org is Some && args.org->0.admin == args.creator->0.sender;
            &&& args.name.len() < 3 <==> outcome == Err::<(), _>(
                DispatchError::Module(Error::TooShort),
            )
            &&& args.name.len() > 100 <==> outcome == Err::<(), _>(
                DispatchError::Module(Error::TooLong),
            )
            &&& named && args.creator is None <==> outcome == Err::<(), _>(DispatchError::BadOrigin)
            &&& named && acts && args.org is None <==> outcome == Err::<(), _>(
                DispatchError::Module(Error::NotExists),
            )
            &&& named && args.creator is Some && (!acts || (args.org is Some && !admin))
                <==> outcome == Err::<(), _>(DispatchError::Module(Error::PermissionDenied))
            &&& named && acts && admin && pallet.certificates.contains_key(
                pallet.next_cert_id(args.name, args.description),
            ) <==> outcome == Err::<(), _>(DispatchError::Module(Error::IdAlreadyExists))
        }),
{
}

/// A creation adds one certificate, moves the index on, and touches nothing else.
pub proof fn law_creation_touches_nothing_else<T: Config>(
    pallet: PalletModel<T>,
    args: CreateArgs,
    other: Seq<u8>,
)
    requires
        pallet.create_outcome(args) is Ok,
        other != pallet.next_cert_id(args.name, args.description),
    ensures
        ({
            let after = pallet.create_result(args);
            &&& after.certificates.contains_key(other) <==> pallet.certificates.contains_key(other)
            &&& pallet.certificates.contains_key(other) ==> after.certificates[other]
                == pallet.certificates[other]
            &&& after.issued_cert == pallet.issued_cert
            &&& after.issued_cert_owner == pallet.issued_cert_owner
            &&& after.account_id_index == pallet.account_id_index
            &&& after.cert_id_index == Some(pallet.next_index())
        }),
{
}

/// The first index is one, and each later one is one more, until the largest is reached.
pub proof fn law_indices_are_counted_from_one<T: Config>(pallet: PalletModel<T>)
    ensures
        pallet.cert_id_index is None ==> pallet.next_index() == 1,
        pallet.cert_id_index matches Some(index) && index < u64::MAX ==> pallet.next_index()
            == pallet.cert_id_index->0 + 1,
        pallet.cert_id_index == Some(u64::MAX) ==> pallet.next_index() == u64::MAX,
{
}

/// A refused creation uses up an index where its identifier is taken, and then alone.
pub proof fn law_taken_identifier_uses_up_an_index<T: Config>(
    pallet: PalletModel<T>,
    args: CreateArgs,
)
    requires
        pallet.create_outcome(args) is Err,
    ensures
        pallet.create_outcome(args) == Err::<(), _>(DispatchError::Module(Error::IdAlreadyExists))
            ==> pallet.create_result(args).cert_id_index == Some(pallet.next_index()),
        pallet.create_outcome(args) != Err::<(), _>(DispatchError::Module(Error::IdAlreadyExists))
            ==> pallet.create_result(args).cert_id_index == pallet.cert_id_index,
{
}

/// The identifier of the next certificate is the front of the hash of the data that holds the next
/// index in eight bytes, the lowest first, then the name, then the description.
pub proof fn law_next_identifier_is_made_of_all_parts<T: Config>(
    pallet: PalletModel<T>,
    name: Seq<u8>,
    description: Seq<u8>,
    data: Seq<u8>,
)
    requires
        data.len() == 8 + name.len() + description.len(),
        le_value(data.take(8)) == pallet.next_index(),
        data.subrange(8, 8 + name.len() as int) == name,
        data.skip(8 + name.len() as int) == description,
    ensures
        pallet.next_cert_id(name, description) == T::Hashing::digest(data).take(32),
{
    law_certificate_data_holds_all_parts(pallet.next_index(), name, description, data);
}

/// The identifier of an issue is cut from the hash of the organization, the certificate, the
/// recipient and the additional data, one after the other. Neither the account of the recipient nor
/// the time plays a part.
pub proof fn law_issue_identifier_is_made_of_all_parts<T: Config>(args: IssueArgs<T>)
    ensures
        args.issue_id() == issued_id_of(
            T::Hashing::digest(
                args.org_id + args.cert_id + args.recipient + args.additional_data,
            ),
        ),
{
}

/// An issue succeeds exactly where the request was signed by the admin of an organization that is
/// not suspended, the certificate exists, the additional data has less than one hundred bytes, the
/// same was not issued before, and the account of the recipient, where one is given, holds proofs
/// of the organization.
pub proof fn law_issue_succeeds_exactly_for_the_admin<T: Config>(
    pallet: PalletModel<T>,
    args: IssueArgs<T>,
)
    ensures
        pallet.issue_outcome(args) is Ok <==> {
            &&& args.signer is Some
            &&& pallet.certificates.contains_key(args.cert_id)
            &&& args.additional_data.len() < 100
            &&& args.org is Some
            &&& args.org->0.admin == args.signer->0
            &&& args.access is Some
            &&& !args.access->0.suspended
            &&& !pallet.issued_cert.contains_key((args.org_id, args.issue_id()))
            &&& args.acc_handler is Some ==> pallet.issued_cert_owner.contains_key(
                (args.org_id, args.acc_handler->0),
            )
        },
{
}

/// Each refusal of an issue has its reason, and the first that applies counts.
pub proof fn law_refused_issue_has_its_reason<T: Config>(pallet: PalletModel<T>, args: IssueArgs<T>)
    ensures
        ({
            let outcome = pallet.issue_outcome(args);
            let known = args.signer is Some && pallet.certificates.contains_key(args.cert_id);
            let short = known && args.additional_data.len() < 100;
            let admin = args.org is Some && args.org->0.admin == args.signer->0;
            let access = args.access is Some && !args.access->0.suspended;
            let issued = pallet.issued_cert.contains_key((args.org_id, args.issue_id()));
            let new_holder = args.acc_handler is Some && !pallet.issued_cert_owner.contains_key(
                (args.org_id, args.acc_handler->0),
            );
            &&& args.signer is None <==> outcome == Err::<(), _>(DispatchError::BadOrigin)
            &&& args.signer is Some && !known <==> outcome == Err::<(), _>(
                DispatchError::Module(Error::NotExists),
            )
            &&& known && args.additional_data.len() >= 100 <==> outcome == Err::<(), _>(
                DispatchError::Module(Error::TooLong),
            )
            &&& short && args.org is Some && !(admin && access) <==> outcome == Err::<(), _>(
                DispatchError::Module(Error::PermissionDenied),
            )
            &&& short && admin && access && issued <==> outcome == Err::<(), _>(
                DispatchError::Module(Error::AlreadyExists),
            )
            &&& short && (args.org is None || (admin && access && !issued && new_holder))
                <==> outcome == Err::<(), _>(DispatchError::Module(Error::Unknown))
        }),
{
}

/// An issue records the certificate, the recipient and the time under its organization and
/// identifier, and touches nothing but this record and what the account of the recipient holds.
pub proof fn law_issue_touches_nothing_else<T: Config>(
    pallet: PalletModel<T>,
    args: IssueArgs<T>,
    other: (Seq<u8>, Seq<u8>),
)
    requires
        pallet.issue_outcome(args) is Ok,
    ensures
        ({
            let after = pallet.issue_result(args);
            let key = (args.org_id, args.issue_id());
            &&& after.issued_cert[key].cert_id == args.cert_id
            &&& after.issued_cert[key].human_id == args.recipient
            &&& after.issued_cert[key].time == args.now
            &&& other != key ==> (after.issued_cert.contains_key(other)
                <==> pallet.issued_cert.contains_key(other))
            &&& other != key && pallet.issued_cert.contains_key(other) ==> after.issued_cert[other]
                == pallet.issued_cert[other]
            &&& args.acc_handler matches Some(account) ==> {
                let held = after.issued_cert_owner[(args.org_id, account)];
                &&& held.len() == pallet.issued_cert_owner[(args.org_id, account)].len() + 1
                &&& held.last() == after.issued_cert[key]
                &&& held.drop_last() == pallet.issued_cert_owner[(args.org_id, account)]
            }
            &&& args.acc_handler is None || other != (args.org_id, args.acc_handler->0) ==> {
                &&& after.issued_cert_owner.contains_key(other)
                    <==> pallet.issued_cert_owner.contains_key(other)
                &&& pallet.issued_cert_owner.contains_key(other) ==> after.issued_cert_owner[other]
                    == pallet.issued_cert_owner[other]
            }
            &&& after.certificates == pallet.certificates
            &&& after.cert_id_index == pallet.cert_id_index
            &&& after.account_id_index == pallet.account_id_index
        }),
{
    if let Some(account) = args.acc_handler {
        let before = pallet.issued_cert_owner[(args.org_id, account)];
        assert(before.push(args.certificate_proof()).drop_last() =~= before);
    }
}

/// After an issue the same admin can issue the same certificate to another recipient, or with other
/// additional data, where the hashes of the two do not lead to the same identifier.
pub proof fn law_another_issue_is_not_refused<T: Config>(
    pallet: PalletModel<T>,
    first: IssueArgs<T>,
    second: IssueArgs<T>,
)
    requires
        pallet.issue_outcome(first) is Ok,
        second.signer == first.signer,
        second.org_id == first.org_id,
        second.cert_id == first.cert_id,
        second.org == first.org,
        second.access == first.access,
        second.acc_handler == first.acc_handler,
        second.additional_data.len() < 100,
        issued_id_of(
            T::Hashing::digest(
                first.org_id + first.cert_id + second.recipient + second.additional_data,
            ),
        ) != issued_id_of(
            T::Hashing::digest(
                first.org_id + first.cert_id + first.recipient + first.additional_data,
            ),
        ),
        !pallet.issued_cert.contains_key(
            (
                first.org_id,
                issued_id_of(
                    T::Hashing::digest(
                        first.org_id + first.cert_id + second.recipient + second.additional_data,
                    ),
                ),
            ),
        ),
    ensures
        pallet.issue_result(first).issue_outcome(second) == Ok::<(), DispatchError>(()),
{
}

/// An organization stands for its admin and its suspension, a creator for its account and
/// organizations, and an origin for the account that signed.
pub proof fn law_arguments_stand_for_all_that_they_hold<A: Account>(
    org: Organization<A>,
    creator: Creator<A>,
    who: A,
    account: Seq<u8>,
)
    ensures
        organization_model(Some(org)) matches Some(model) && {
            &&& model.admin == org.admin.model()
            &&& model.suspended == org.suspended
        },
        organization_model(None::<Organization<A>>) is None,
        creator_model(Ok::<_, BadOrigin>(creator)) matches Some(model) && {
            &&& model.sender == creator.sender.model()
            &&& model.org_ids.contains(account) <==> exists|i: int|
                0 <= i < creator.org_ids@.len() && (#[trigger] creator.org_ids@[i]).model()
                    == account
        },
        creator_model(Err::<Creator<A>, _>(BadOrigin)) is None,
        signer_model(Origin::Signed(who)) == Some(who.model()),
        signer_model(Origin::<A>::Root) is None,
        signer_model(Origin::<A>::Unsigned) is None,
        account_model(Some(who)) == Some(who.model()),
        account_model(None::<A>) is None,
{
    let ids = creator.model().org_ids;
    assert forall|i: int| 0 <= i < ids.len() implies ids[i] == (
    #[trigger] creator.org_ids@[i]).model() by {}
    if ids.contains(account) {
        let i = choose|i: int| 0 <= i < ids.len() && ids[i] == account;
        assert(creator.org_ids@[i].model() == account);
    }
    if exists|i: int|
        0 <= i < creator.org_ids@.len() && (#[trigger] creator.org_ids@[i]).model() == account {
        let i = choose|i: int|
            0 <= i < creator.org_ids@.len() && (#[trigger] creator.org_ids@[i]).model() == account;
        assert(ids[i] == account);
    }
}

/// Certificates, proofs and events stand for all that they hold.
pub proof fn law_records_stand_for_all_that_they_hold<T: Config>(
    detail: CertDetail<T::AccountId>,
    certificate_proof: CertProof<T>,
    held: Vec<CertProof<T>>,
    index: u64,
    cert_id: CertId,
    issue_id: IssuedId,
    account: T::AccountId,
)
    ensures
        detail.model().name == detail.name@,
        detail.model().description == detail.description@,
        detail.model().org_id == detail.org_id.model(),
        certificate_proof.model().cert_id == certificate_proof.cert_id@,
        certificate_proof.model().human_id == certificate_proof.human_id@,
        certificate_proof.model().time == certificate_proof.time,
        held.model().len() == held@.len(),
        forall|i: int| 0 <= i < held@.len() ==> #[trigger] held.model()[i] == held@[i].model(),
        Event::CertAdded(index, cert_id, account).model() == EventModel::CertAdded(
            index,
            cert_id@,
            account.model(),
        ),
        Event::CertIssued(issue_id, Some(account)).model() == EventModel::CertIssued(
            issue_id@,
            Some(account.model()),
        ),
        Event::CertIssued(issue_id, None::<T::AccountId>).model() == EventModel::CertIssued(
            issue_id@,
            None,
        ),
{
}

/// A registry stands for all that it holds.
pub proof fn law_registry_stands_for_all_that_it_holds<T: Config>(pallet: Pallet<T>)
    ensures
        pallet.model().certificates == pallet.certificates.model(),
        pallet.model().issued_cert == pallet.issued_cert.model(),
        pallet.model().issued_cert_owner == pallet.issued_cert_owner.model(),
        pallet.model().account_id_index == pallet.account_id_index,
        pallet.model().cert_id_index == pallet.cert_id_index,
        pallet.model().events.len() == pallet.events@.len(),
        forall|i: int|
            0 <= i < pallet.events@.len() ==> #[trigger] pallet.model().events[i]
                == pallet.events@[i].model(),
{
}

} // verus!
