//! What holds between writing and reading control messages.

use super::append::{credentials_message, rights_message};
use super::format::{
    encode_message, lemma_messages_append, lemma_messages_bounded, messages, well_formed,
    ControlMessage,
};
use super::layout::message_space;
use super::owned::OwnedAncillaryMessage;
use super::payload::{fd_slots, lemma_fd_bytes_len, lemma_fd_round_trip};
use super::reader::{is_credentials, is_rights, AncillaryMessage};
use super::socket_ancillary::AncillaryData;
use super::socket_cred::{cred_count, is_cred, lemma_creds_round_trip, SocketCred};
use vstd::prelude::*;

verus! {

/// Round trip of file descriptors: where the message that passes `fds` is
/// written behind whole messages, a reader finds the old messages and then
/// one rights message, and its slots hold `fds`, in the order in which they
/// were given.
pub proof fn lemma_written_fds_are_read(written: Seq<u8>, fds: Seq<i32>)
    requires
        well_formed(written),
        message_space(4 * fds.len() as int) < 0x1_0000_0000_0000_0000,
    ensures
        ({
            let all = written + encode_message(rights_message(fds));
            &&& well_formed(all)
            &&& messages(all) == messages(written).push(rights_message(fds))
            &&& is_rights(messages(all).last())
            &&& fd_slots(messages(all).last().data) == fds
        }),
{
    lemma_fd_bytes_len(fds);
    lemma_fd_round_trip(fds);
    lemma_messages_append(written, 0, rights_message(fds));
}

/// Round trip of credentials: where the message that passes `creds` is
/// written behind whole messages, a reader finds the old messages and then
/// one credentials message, and its records are `creds`, in the order in
/// which they were given.
pub proof fn lemma_written_creds_are_read(written: Seq<u8>, creds: Seq<SocketCred>)
    requires
        well_formed(written),
        message_space(12 * creds.len() as int) < 0x1_0000_0000_0000_0000,
    ensures
        ({
            let all = written + encode_message(credentials_message(creds));
            let data = messages(all).last().data;
            &&& well_formed(all)
            &&& messages(all) == messages(written).push(credentials_message(creds))
            &&& is_credentials(messages(all).last())
            &&& cred_count(data) == creds.len()
            &&& forall|i: int|
                0 <= i < creds.len() ==> is_cred(
                    data.subrange(12 * i, 12 * i + 12),
                    #[trigger] creds[i],
                )
        }),
{
    lemma_creds_round_trip(creds);
    lemma_messages_append(written, 0, credentials_message(creds));
}

/// A message of any level and type comes out as it went in: level, type and
/// every byte of the payload.
pub proof fn lemma_any_message_is_read(written: Seq<u8>, m: ControlMessage)
    requires
        well_formed(written),
        message_space(m.data.len() as int) < 0x1_0000_0000_0000_0000,
    ensures
        messages(written + encode_message(m)) == messages(written).push(m),
        messages(written + encode_message(m)).last() == m,
{
    lemma_messages_append(written, 0, m);
}

/// Reading stays inside what was received: header and payload of every
/// message that a reader finds lie within the used bytes.
pub proof fn lemma_read_stays_inside(received: Seq<u8>, i: int)
    requires
        0 <= i < messages(received).len(),
    ensures
        16 + messages(received)[i].data.len() <= received.len(),
        messages(received).len() * 16 <= received.len(),
{
    lemma_messages_bounded(received, 0);
}

/// The variant of a message that a reader gives out says what level and
/// type say: file descriptors for the rights of the socket level,
/// credentials for the credentials of the socket level, and an unrecognized
/// message for everything else.
pub proof fn lemma_variant_by_level_and_type(m: AncillaryMessage<'_>)
    requires
        m.is_classified(),
    ensures
        m is FileDescriptors <==> is_rights(m@),
        m is Credentials <==> is_credentials(m@),
        m is Other <==> !is_rights(m@) && !is_credentials(m@),
{
}

/// The variant of a message that the iteration over ancillary data gives out
/// says what level and type say.
pub proof fn lemma_data_variant_by_level_and_type(m: AncillaryData<'_>)
    requires
        m.is_classified(),
    ensures
        m is ScmRights <==> is_rights(m@),
        m is ScmCredentials <==> is_credentials(m@),
        m is Other <==> !is_rights(m@) && !is_credentials(m@),
{
}

/// The variant of an owned message says what level and type say.
pub proof fn lemma_owned_variant_by_level_and_type(m: OwnedAncillaryMessage<'_>)
    requires
        m.is_classified(),
    ensures
        m is FileDescriptors <==> is_rights(m@),
        m is Credentials <==> is_credentials(m@),
        m is Other <==> !is_rights(m@) && !is_credentials(m@),
{
}

} // verus!
