//! The request and response kinds of the remote database protocol.

use vstd::prelude::*;
use crate::buffer::{bytes_view, bytes_from_vec};
use crate::wire::{be16, push_be16};

verus! {

#[derive(Debug, PartialEq, Eq, Structural, Copy, Clone)]
pub enum DBRequestType {
    AlbumByArtistRequest,
    AlbumRequest,
    ArtistRequest,
    GenreRequest,
    HistoryRequest,
    KeyRequest,
    MenuFooter,
    MenuHeader,
    MenuItem,
    MetadataRequest,
    MountInfoRequest,
    LoadTrackRequest,
    LoadTrackSuccess,
    PlaylistRequest,
    PreviewWaveformRequest,
    RenderRequest,
    RootMenuRequest,
    SearchQueryRequest,
    Setup,
    Success,
    TitleByArtistAlbumRequest,
    TitleRequest,
    Unknown(u16),
}

/// The kind that a 16-bit request code names.
pub open spec fn request_type_of(value: u16) -> DBRequestType {
    if value == 0 {
        DBRequestType::Setup
    } else if value == 4096 {
        DBRequestType::RootMenuRequest
    } else if value == 4097 {
        DBRequestType::GenreRequest
    } else if value == 4098 {
        DBRequestType::ArtistRequest
    } else if value == 4099 {
        DBRequestType::AlbumRequest
    } else if value == 4100 {
        DBRequestType::TitleRequest
    } else if value == 4114 {
        DBRequestType::HistoryRequest
    } else if value == 4116 {
        DBRequestType::KeyRequest
    } else if value == 4354 {
        DBRequestType::AlbumByArtistRequest
    } else if value == 4357 {
        DBRequestType::PlaylistRequest
    } else if value == 4610 {
        DBRequestType::TitleByArtistAlbumRequest
    } else if value == 4864 {
        DBRequestType::SearchQueryRequest
    } else if value == 8194 {
        DBRequestType::MetadataRequest
    } else if value == 8196 {
        DBRequestType::PreviewWaveformRequest
    } else if value == 8450 {
        DBRequestType::MountInfoRequest
    } else if value == 11012 {
        DBRequestType::LoadTrackRequest
    } else if value == 12288 {
        DBRequestType::RenderRequest
    } else if value == 16384 {
        DBRequestType::Success
    } else if value == 16385 {
        DBRequestType::MenuHeader
    } else if value == 16641 {
        DBRequestType::MenuItem
    } else if value == 16897 {
        DBRequestType::MenuFooter
    } else {
        DBRequestType::Unknown(value)
    }
}

/// The 16-bit code that a kind is sent as; kinds without a code of their
/// own are sent as 0.
pub open spec fn request_type_code(t: DBRequestType) -> u16 {
    match t {
        DBRequestType::AlbumByArtistRequest => 0x1102,
        DBRequestType::ArtistRequest => 0x1002,
        DBRequestType::LoadTrackRequest => 0x2b04,
        DBRequestType::MenuFooter => 0x4201,
        DBRequestType::MenuHeader => 0x4001,
        DBRequestType::MenuItem => 0x4101,
        DBRequestType::LoadTrackSuccess => 0x4e02,
        DBRequestType::MetadataRequest => 0x2002,
        DBRequestType::MountInfoRequest => 0x2102,
        DBRequestType::PreviewWaveformRequest => 0x2004,
        DBRequestType::RootMenuRequest => 0x1000,
        DBRequestType::RenderRequest => 0x3000,
        DBRequestType::Setup => 0x0000,
        DBRequestType::Success => 0x4000,
        DBRequestType::TitleByArtistAlbumRequest => 0x1202,
        _ => 0x0000,
    }
}

/// The kinds that are sent with a code of their own.
pub open spec fn has_own_code(t: DBRequestType) -> bool {
    match t {
        DBRequestType::AlbumByArtistRequest | DBRequestType::ArtistRequest
        | DBRequestType::LoadTrackRequest | DBRequestType::MenuFooter
        | DBRequestType::MenuHeader | DBRequestType::MenuItem
        | DBRequestType::MetadataRequest | DBRequestType::MountInfoRequest
        | DBRequestType::PreviewWaveformRequest | DBRequestType::RootMenuRequest
        | DBRequestType::RenderRequest | DBRequestType::Setup | DBRequestType::Success
        | DBRequestType::TitleByArtistAlbumRequest => true,
        _ => false,
    }
}

impl DBRequestType {
    /// The two bytes (big-endian code) that this kind is sent as.
    pub fn value(&self) -> (b: bytes::Bytes)
        ensures
            bytes_view(b) == be16(request_type_code(*self)),
    {
        let mut v: Vec<u8> = Vec::new();
        push_be16(&mut v, self.code());
        bytes_from_vec(v)
    }

    /// The 16-bit code that this kind is sent as.
    pub fn code(&self) -> (c: u16)
        ensures
            c == request_type_code(*self),
    {
        match self {
            DBRequestType::AlbumByArtistRequest => 0x1102,
            DBRequestType::ArtistRequest => 0x1002,
            DBRequestType::LoadTrackRequest => 0x2b04,
            DBRequestType::MenuFooter => 0x4201,
            DBRequestType::MenuHeader => 0x4001,
            DBRequestType::MenuItem => 0x4101,
            DBRequestType::LoadTrackSuccess => 0x4e02,
            DBRequestType::MetadataRequest => 0x2002,
            DBRequestType::MountInfoRequest => 0x2102,
            DBRequestType::PreviewWaveformRequest => 0x2004,
            DBRequestType::RootMenuRequest => 0x1000,
            DBRequestType::RenderRequest => 0x3000,
            DBRequestType::Setup => 0x0000,
            DBRequestType::Success => 0x4000,
            DBRequestType::TitleByArtistAlbumRequest => 0x1202,
            _ => 0x0000,
        }
    }

    /// The kind that a 16-bit request code names.
    pub fn new(value: u16) -> (t: DBRequestType)
        ensures
            t == request_type_of(value),
    {
        match value {
            0u16 => DBRequestType::Setup,
            4096u16 => DBRequestType::RootMenuRequest,
            4097u16 => DBRequestType::GenreRequest,
            4098u16 => DBRequestType::ArtistRequest,
            4099u16 => DBRequestType::AlbumRequest,
            4100u16 => DBRequestType::TitleRequest,
            4114u16 => DBRequestType::HistoryRequest,
            4116u16 => DBRequestType::KeyRequest,
            4354u16 => DBRequestType::AlbumByArtistRequest,
            4357u16 => DBRequestType::PlaylistRequest,
            4610u16 => DBRequestType::TitleByArtistAlbumRequest,
            4864u16 => DBRequestType::SearchQueryRequest,
            8194u16 => DBRequestType::MetadataRequest,
            8196u16 => DBRequestType::PreviewWaveformRequest,
            8450u16 => DBRequestType::MountInfoRequest,
            11012u16 => DBRequestType::LoadTrackRequest,
            12288u16 => DBRequestType::RenderRequest,
            16384u16 => DBRequestType::Success,
            16385u16 => DBRequestType::MenuHeader,
            16641u16 => DBRequestType::MenuItem,
            16897u16 => DBRequestType::MenuFooter,
            _ => DBRequestType::Unknown(value),
        }
    }
}

/// A kind that is sent with a code of its own is read back as itself, except
/// `LoadTrackSuccess` whose code reads back as unknown; any other kind is sent
/// as 0 and read back as `Setup`.
pub proof fn lemma_request_type_roundtrip(t: DBRequestType)
    ensures
        has_own_code(t) ==> request_type_of(request_type_code(t)) == t,
        t == DBRequestType::LoadTrackSuccess ==> request_type_of(request_type_code(t))
            == DBRequestType::Unknown(0x4e02),
        !has_own_code(t) && t != DBRequestType::LoadTrackSuccess ==> request_type_of(
            request_type_code(t),
        ) == DBRequestType::Setup,
{
}

/// A code that names a known kind is that kind's code.
pub proof fn lemma_request_code_of_known(value: u16)
    ensures
        has_own_code(request_type_of(value)) ==> request_type_code(request_type_of(value)) == value,
{
}

/// The protocol's table of request codes, read both ways. Each code of the
/// table names its kind and no other code does: 0x2002 asks for a track's
/// metadata, 0x2102 for its mount information, 0x3000 renders the menu that
/// was asked for, and so on. A code outside the table reads as unknown and
/// keeps its value. The kinds with a code of their own are sent as that code.
pub proof fn lemma_request_code_table(v: u16)
    ensures
        (request_type_of(v) == DBRequestType::Setup) <==> v == 0x0000,
        (request_type_of(v) == DBRequestType::RootMenuRequest) <==> v == 0x1000,
        (request_type_of(v) == DBRequestType::GenreRequest) <==> v == 0x1001,
        (request_type_of(v) == DBRequestType::ArtistRequest) <==> v == 0x1002,
        (request_type_of(v) == DBRequestType::AlbumRequest) <==> v == 0x1003,
        (request_type_of(v) == DBRequestType::TitleRequest) <==> v == 0x1004,
        (request_type_of(v) == DBRequestType::HistoryRequest) <==> v == 0x1012,
        (request_type_of(v) == DBRequestType::KeyRequest) <==> v == 0x1014,
        (request_type_of(v) == DBRequestType::AlbumByArtistRequest) <==> v == 0x1102,
        (request_type_of(v) == DBRequestType::PlaylistRequest) <==> v == 0x1105,
        (request_type_of(v) == DBRequestType::TitleByArtistAlbumRequest) <==> v == 0x1202,
        (request_type_of(v) == DBRequestType::SearchQueryRequest) <==> v == 0x1300,
        (request_type_of(v) == DBRequestType::MetadataRequest) <==> v == 0x2002,
        (request_type_of(v) == DBRequestType::PreviewWaveformRequest) <==> v == 0x2004,
        (request_type_of(v) == DBRequestType::MountInfoRequest) <==> v == 0x2102,
        (request_type_of(v) == DBRequestType::LoadTrackRequest) <==> v == 0x2b04,
        (request_type_of(v) == DBRequestType::RenderRequest) <==> v == 0x3000,
        (request_type_of(v) == DBRequestType::Success) <==> v == 0x4000,
        (request_type_of(v) == DBRequestType::MenuHeader) <==> v == 0x4001,
        (request_type_of(v) == DBRequestType::MenuItem) <==> v == 0x4101,
        (request_type_of(v) == DBRequestType::MenuFooter) <==> v == 0x4201,
        request_type_of(v) is Unknown ==> request_type_of(v) == DBRequestType::Unknown(v),
        request_type_of(v) != DBRequestType::LoadTrackSuccess,
        request_type_code(DBRequestType::AlbumByArtistRequest) == 0x1102,
        request_type_code(DBRequestType::ArtistRequest) == 0x1002,
        request_type_code(DBRequestType::LoadTrackRequest) == 0x2b04,
        request_type_code(DBRequestType::MenuFooter) == 0x4201,
        request_type_code(DBRequestType::MenuHeader) == 0x4001,
        request_type_code(DBRequestType::MenuItem) == 0x4101,
        request_type_code(DBRequestType::LoadTrackSuccess) == 0x4e02,
        request_type_code(DBRequestType::MetadataRequest) == 0x2002,
        request_type_code(DBRequestType::MountInfoRequest) == 0x2102,
        request_type_code(DBRequestType::PreviewWaveformRequest) == 0x2004,
        request_type_code(DBRequestType::RootMenuRequest) == 0x1000,
        request_type_code(DBRequestType::RenderRequest) == 0x3000,
        request_type_code(DBRequestType::Setup) == 0x0000,
        request_type_code(DBRequestType::Success) == 0x4000,
        request_type_code(DBRequestType::TitleByArtistAlbumRequest) == 0x1202,
{
}

} // verus!
