use vstd::prelude::*;
use crate::user_state::{UserState, state_rank};
use crate::zone::pick_below;

verus! {

/// The kinds of client packets that the ship server acts on; every other
/// packet is `Other`.
#[derive(Clone, Copy, Debug, PartialEq, Eq, Structural)]
pub enum PacketKind {
    InitialLoad,
    ServerPong,
    EncryptionRequest,
    ClientPing,
    BlockListRequest,
    ClientGoodbye,
    SystemInformation,
    ChallengeResponse,
    MapLoaded,
    ToCampship,
    CampshipDown,
    CasinoToLobby,
    CasinoTransport,
    BridgeToLobby,
    BridgeTransport,
    CafeToLobby,
    CafeTransport,
    Movement,
    MovementAction,
    Interact,
    ChangeClassRequest,
    ActionUpdate,
    MovementEnd,
    ActionEnd,
    DealDamage,
    ChatMessage,
    MinimapRevealRequest,
    AvailableQuestsRequest,
    QuestCategoryRequest,
    QuestDifficultyRequest,
    AcceptQuest,
    QuestCounterRequest,
    AcceptStoryQuest,
    PartyInviteRequest,
    AcceptInvite,
    LeaveParty,
    NewPartySettings,
    TransferLeader,
    KickMember,
    DisbandParty,
    ChatStatus,
    GetPartyDetails,
    SetBusy,
    SetNotBusy,
    SetInviteDecline,
    GetPartyInfo,
    EquipItemRequest,
    UnequipItemRequest,
    MoveToStorageRequest,
    MoveToInventoryRequest,
    MoveMeseta,
    DiscardItemRequest,
    MoveStoragesRequest,
    GetItemDescription,
    DiscardStorageItemRequest,
    BlockSwitchRequest,
    FriendListRequest,
    SetPalette,
    UpdateSubPalette,
    UpdatePalette,
    SetSubPalette,
    SetDefaultPAs,
    SetFlag,
    SkitItemAddRequest,
    CutsceneEnd,
    SymbolArtClientDataRequest,
    SymbolArtData,
    ChangeSymbolArt,
    SymbolArtListRequest,
    SendSymbolArt,
    MissionListRequest,
    MissionPassInfoRequest,
    MissionPassRequest,
    SegaIDLogin,
    BlockLogin,
    VitaLogin,
    CharacterListRequest,
    StartGame,
    CharacterCreate,
    CharacterDeletionRequest,
    CreateCharacter1,
    CreateCharacter2,
    LoginHistoryRequest,
    CharacterUndeletionRequest,
    CharacterRenameRequest,
    CharacterNewNameRequest,
    CharacterMoveRequest,
    NicknameResponse,
    FullPaletteInfoRequest,
    SettingsRequest,
    SaveSettings,
    Other,
}

/// The handler a packet is dispatched to.
#[derive(Clone, Copy, Debug, PartialEq, Eq, Structural)]
pub enum Route {
    InitialLoad,
    ResetPings,
    EncryptionRequest,
    ClientPing,
    BlockListRequest,
    PrepareShutdown,
    Ignore,
    SwitchToNaPackets,
    MapLoaded,
    ToCampship,
    CampshipDown,
    CasinoToLobby,
    CasinoTransport,
    BridgeToLobby,
    BridgeTransport,
    CafeToLobby,
    CafeTransport,
    Movement,
    SendPosition,
    Interact,
    ChangeClassRequest,
    SetPositionAndSend,
    DealDamage,
    ChatMessage,
    ShowChunkId,
    AvailableQuestsRequest,
    QuestCategoryRequest,
    QuestDifficultyRequest,
    AcceptQuest,
    QuestCounterRequest,
    AcceptStoryQuest,
    PartyInviteRequest,
    AcceptInvite,
    LeaveParty,
    NewPartySettings,
    TransferLeader,
    KickMember,
    DisbandParty,
    ChatStatus,
    GetPartyDetails,
    SetBusy,
    SetNotBusy,
    SetInviteDecline,
    GetPartyInfo,
    EquipItemRequest,
    UnequipItemRequest,
    MoveToStorageRequest,
    MoveToInventoryRequest,
    MoveMeseta,
    DiscardItemRequest,
    MoveStoragesRequest,
    GetItemDescription,
    DiscardStorageItemRequest,
    BlockSwitchRequest,
    FriendListRequest,
    SetPalette,
    UpdateSubPalette,
    UpdatePalette,
    SetSubPalette,
    SetDefaultPAs,
    SetFlag,
    SkitItemAddRequest,
    CutsceneEnd,
    SymbolArtClientDataRequest,
    SymbolArtData,
    ChangeSymbolArt,
    SymbolArtListRequest,
    SendSymbolArt,
    MissionListRequest,
    MissionPassInfoRequest,
    MissionPassRequest,
    LoginRequest,
    ChallengeLogin,
    CharacterListRequest,
    StartGame,
    CharacterCreate,
    CharacterDeletionRequest,
    CreateCharacter1,
    CreateCharacter2,
    LoginHistoryRequest,
    CharacterUndeletionRequest,
    CharacterRenameRequest,
    CharacterNewNameRequest,
    CharacterMoveRequest,
    NicknameResponse,
    FullPaletteInfoRequest,
    SettingsRequest,
    SaveSettings,
    /// The packet is not handled in the current state.
    Unhandled,
}

/// In which connection states a kind of packet is accepted.
#[derive(Clone, Copy, Debug, PartialEq, Eq, Structural)]
pub enum StateRequirement {
    Any,
    Exactly(UserState),
    AtLeast(UserState),
    Never,
}

/// The states in which each kind of packet is accepted.
pub open spec fn kind_requirement(kind: PacketKind) -> StateRequirement {
    match kind {
        PacketKind::InitialLoad => StateRequirement::Exactly(UserState::PreInGame),
        PacketKind::ServerPong | PacketKind::EncryptionRequest | PacketKind::ClientPing | PacketKind::BlockListRequest | PacketKind::ClientGoodbye | PacketKind::SystemInformation | PacketKind::ChallengeResponse => StateRequirement::Any,
        PacketKind::MapLoaded | PacketKind::ToCampship | PacketKind::CampshipDown | PacketKind::CasinoToLobby | PacketKind::CasinoTransport | PacketKind::BridgeToLobby | PacketKind::BridgeTransport | PacketKind::CafeToLobby | PacketKind::CafeTransport | PacketKind::Movement | PacketKind::MovementAction | PacketKind::Interact | PacketKind::ChangeClassRequest | PacketKind::ActionUpdate | PacketKind::MovementEnd | PacketKind::ActionEnd | PacketKind::DealDamage | PacketKind::ChatMessage | PacketKind::MinimapRevealRequest | PacketKind::AvailableQuestsRequest | PacketKind::QuestCategoryRequest | PacketKind::QuestDifficultyRequest | PacketKind::AcceptQuest | PacketKind::QuestCounterRequest | PacketKind::AcceptStoryQuest | PacketKind::PartyInviteRequest | PacketKind::AcceptInvite | PacketKind::LeaveParty | PacketKind::NewPartySettings | PacketKind::TransferLeader | PacketKind::KickMember | PacketKind::DisbandParty | PacketKind::ChatStatus | PacketKind::GetPartyDetails | PacketKind::SetBusy | PacketKind::SetNotBusy | PacketKind::SetInviteDecline | PacketKind::GetPartyInfo | PacketKind::EquipItemRequest | PacketKind::UnequipItemRequest | PacketKind::MoveToStorageRequest | PacketKind::MoveToInventoryRequest | PacketKind::MoveMeseta | PacketKind::DiscardItemRequest | PacketKind::MoveStoragesRequest | PacketKind::GetItemDescription | PacketKind::DiscardStorageItemRequest | PacketKind::BlockSwitchRequest | PacketKind::FriendListRequest | PacketKind::SetPalette | PacketKind::UpdateSubPalette | PacketKind::UpdatePalette | PacketKind::SetSubPalette | PacketKind::SetDefaultPAs | PacketKind::SetFlag | PacketKind::SkitItemAddRequest | PacketKind::CutsceneEnd | PacketKind::SymbolArtClientDataRequest | PacketKind::SymbolArtData | PacketKind::ChangeSymbolArt | PacketKind::SymbolArtListRequest | PacketKind::SendSymbolArt | PacketKind::MissionListRequest | PacketKind::MissionPassInfoRequest | PacketKind::MissionPassRequest => StateRequirement::Exactly(UserState::InGame),
        PacketKind::SegaIDLogin | PacketKind::BlockLogin | PacketKind::VitaLogin => StateRequirement::Exactly(UserState::LoggingIn),
        PacketKind::CharacterListRequest | PacketKind::StartGame | PacketKind::CharacterCreate | PacketKind::CharacterDeletionRequest | PacketKind::CreateCharacter1 | PacketKind::CreateCharacter2 | PacketKind::LoginHistoryRequest | PacketKind::CharacterUndeletionRequest | PacketKind::CharacterRenameRequest | PacketKind::CharacterNewNameRequest | PacketKind::CharacterMoveRequest => StateRequirement::Exactly(UserState::CharacterSelect),
        PacketKind::NicknameResponse => StateRequirement::Exactly(UserState::NewUsername),
        PacketKind::FullPaletteInfoRequest => StateRequirement::AtLeast(UserState::PreInGame),
        PacketKind::SettingsRequest | PacketKind::SaveSettings => StateRequirement::AtLeast(UserState::NewUsername),
        PacketKind::Other => StateRequirement::Never,
    }
}

/// The handler of each kind of packet, once it is accepted.
pub open spec fn kind_handler(kind: PacketKind) -> Route {
    match kind {
        PacketKind::InitialLoad => Route::InitialLoad,
        PacketKind::ServerPong => Route::ResetPings,
        PacketKind::EncryptionRequest => Route::EncryptionRequest,
        PacketKind::ClientPing => Route::ClientPing,
        PacketKind::BlockListRequest => Route::BlockListRequest,
        PacketKind::ClientGoodbye => Route::PrepareShutdown,
        PacketKind::SystemInformation => Route::Ignore,
        PacketKind::ChallengeResponse => Route::SwitchToNaPackets,
        PacketKind::MapLoaded => Route::MapLoaded,
        PacketKind::ToCampship => Route::ToCampship,
        PacketKind::CampshipDown => Route::CampshipDown,
        PacketKind::CasinoToLobby => Route::CasinoToLobby,
        PacketKind::CasinoTransport => Route::CasinoTransport,
        PacketKind::BridgeToLobby => Route::BridgeToLobby,
        PacketKind::BridgeTransport => Route::BridgeTransport,
        PacketKind::CafeToLobby => Route::CafeToLobby,
        PacketKind::CafeTransport => Route::CafeTransport,
        PacketKind::Movement => Route::Movement,
        PacketKind::MovementAction | PacketKind::ActionUpdate | PacketKind::ActionEnd => Route::SendPosition,
        PacketKind::Interact => Route::Interact,
        PacketKind::ChangeClassRequest => Route::ChangeClassRequest,
        PacketKind::MovementEnd => Route::SetPositionAndSend,
        PacketKind::DealDamage => Route::DealDamage,
        PacketKind::ChatMessage => Route::ChatMessage,
        PacketKind::MinimapRevealRequest => Route::ShowChunkId,
        PacketKind::AvailableQuestsRequest => Route::AvailableQuestsRequest,
        PacketKind::QuestCategoryRequest => Route::QuestCategoryRequest,
        PacketKind::QuestDifficultyRequest => Route::QuestDifficultyRequest,
        PacketKind::AcceptQuest => Route::AcceptQuest,
        PacketKind::QuestCounterRequest => Route::QuestCounterRequest,
        PacketKind::AcceptStoryQuest => Route::AcceptStoryQuest,
        PacketKind::PartyInviteRequest => Route::PartyInviteRequest,
        PacketKind::AcceptInvite => Route::AcceptInvite,
        PacketKind::LeaveParty => Route::LeaveParty,
        PacketKind::NewPartySettings => Route::NewPartySettings,
        PacketKind::TransferLeader => Route::TransferLeader,
        PacketKind::KickMember => Route::KickMember,
        PacketKind::DisbandParty => Route::DisbandParty,
        PacketKind::ChatStatus => Route::ChatStatus,
        PacketKind::GetPartyDetails => Route::GetPartyDetails,
        PacketKind::SetBusy => Route::SetBusy,
        PacketKind::SetNotBusy => Route::SetNotBusy,
        PacketKind::SetInviteDecline => Route::SetInviteDecline,
        PacketKind::GetPartyInfo => Route::GetPartyInfo,
        PacketKind::EquipItemRequest => Route::EquipItemRequest,
        PacketKind::UnequipItemRequest => Route::UnequipItemRequest,
        PacketKind::MoveToStorageRequest => Route::MoveToStorageRequest,
        PacketKind::MoveToInventoryRequest => Route::MoveToInventoryRequest,
        PacketKind::MoveMeseta => Route::MoveMeseta,
        PacketKind::DiscardItemRequest => Route::DiscardItemRequest,
        PacketKind::MoveStoragesRequest => Route::MoveStoragesRequest,
        PacketKind::GetItemDescription => Route::GetItemDescription,
        PacketKind::DiscardStorageItemRequest => Route::DiscardStorageItemRequest,
        PacketKind::BlockSwitchRequest => Route::BlockSwitchRequest,
        PacketKind::FriendListRequest => Route::FriendListRequest,
        PacketKind::SetPalette => Route::SetPalette,
        PacketKind::UpdateSubPalette => Route::UpdateSubPalette,
        PacketKind::UpdatePalette => Route::UpdatePalette,
        PacketKind::SetSubPalette => Route::SetSubPalette,
        PacketKind::SetDefaultPAs => Route::SetDefaultPAs,
        PacketKind::SetFlag => Route::SetFlag,
        PacketKind::SkitItemAddRequest => Route::SkitItemAddRequest,
        PacketKind::CutsceneEnd => Route::CutsceneEnd,
        PacketKind::SymbolArtClientDataRequest => Route::SymbolArtClientDataRequest,
        PacketKind::SymbolArtData => Route::SymbolArtData,
        PacketKind::ChangeSymbolArt => Route::ChangeSymbolArt,
        PacketKind::SymbolArtListRequest => Route::SymbolArtListRequest,
        PacketKind::SendSymbolArt => Route::SendSymbolArt,
        PacketKind::MissionListRequest => Route::MissionListRequest,
        PacketKind::MissionPassInfoRequest => Route::MissionPassInfoRequest,
        PacketKind::MissionPassRequest => Route::MissionPassRequest,
        PacketKind::SegaIDLogin | PacketKind::VitaLogin => Route::LoginRequest,
        PacketKind::BlockLogin => Route::ChallengeLogin,
        PacketKind::CharacterListRequest => Route::CharacterListRequest,
        PacketKind::StartGame => Route::StartGame,
        PacketKind::CharacterCreate => Route::CharacterCreate,
        PacketKind::CharacterDeletionRequest => Route::CharacterDeletionRequest,
        PacketKind::CreateCharacter1 => Route::CreateCharacter1,
        PacketKind::CreateCharacter2 => Route::CreateCharacter2,
        PacketKind::LoginHistoryRequest => Route::LoginHistoryRequest,
        PacketKind::CharacterUndeletionRequest => Route::CharacterUndeletionRequest,
        PacketKind::CharacterRenameRequest => Route::CharacterRenameRequest,
        PacketKind::CharacterNewNameRequest => Route::CharacterNewNameRequest,
        PacketKind::CharacterMoveRequest => Route::CharacterMoveRequest,
        PacketKind::NicknameResponse => Route::NicknameResponse,
        PacketKind::FullPaletteInfoRequest => Route::FullPaletteInfoRequest,
        PacketKind::SettingsRequest => Route::SettingsRequest,
        PacketKind::SaveSettings => Route::SaveSettings,
        PacketKind::Other => Route::Unhandled,
    }
}

/// Whether `state` meets `req`.
pub open spec fn meets(state: UserState, req: StateRequirement) -> bool {
    match req {
        StateRequirement::Any => true,
        StateRequirement::Exactly(s) => state == s,
        StateRequirement::AtLeast(s) => state_rank(state) >= state_rank(s),
        StateRequirement::Never => false,
    }
}

/// Where a packet of kind `kind` goes when the connection is in `state`.
pub open spec fn route_spec(state: UserState, kind: PacketKind) -> Route {
    if meets(state, kind_requirement(kind)) {
        kind_handler(kind)
    } else {
        Route::Unhandled
    }
}

/// Chooses the handler of a client packet from the connection state and the
/// packet's kind.
pub fn route_packet(state: UserState, kind: PacketKind) -> (r: Route)
    ensures
        r == route_spec(state, kind),
{
    match kind {
            PacketKind::InitialLoad => if state == UserState::PreInGame { Route::InitialLoad } else { Route::Unhandled },
            PacketKind::ServerPong => Route::ResetPings,
            PacketKind::EncryptionRequest => Route::EncryptionRequest,
            PacketKind::ClientPing => Route::ClientPing,
            PacketKind::BlockListRequest => Route::BlockListRequest,
            PacketKind::ClientGoodbye => Route::PrepareShutdown,
            PacketKind::SystemInformation => Route::Ignore,
            PacketKind::ChallengeResponse => Route::SwitchToNaPackets,
            PacketKind::MapLoaded => if state == UserState::InGame { Route::MapLoaded } else { Route::Unhandled },
            PacketKind::ToCampship => if state == UserState::InGame { Route::ToCampship } else { Route::Unhandled },
            PacketKind::CampshipDown => if state == UserState::InGame { Route::CampshipDown } else { Route::Unhandled },
            PacketKind::CasinoToLobby => if state == UserState::InGame { Route::CasinoToLobby } else { Route::Unhandled },
            PacketKind::CasinoTransport => if state == UserState::InGame { Route::CasinoTransport } else { Route::Unhandled },
            PacketKind::BridgeToLobby => if state == UserState::InGame { Route::BridgeToLobby } else { Route::Unhandled },
            PacketKind::BridgeTransport => if state == UserState::InGame { Route::BridgeTransport } else { Route::Unhandled },
            PacketKind::CafeToLobby => if state == UserState::InGame { Route::CafeToLobby } else { Route::Unhandled },
            PacketKind::CafeTransport => if state == UserState::InGame { Route::CafeTransport } else { Route::Unhandled },
            PacketKind::Movement => if state == UserState::InGame { Route::Movement } else { Route::Unhandled },
            PacketKind::MovementAction => if state == UserState::InGame { Route::SendPosition } else { Route::Unhandled },
            PacketKind::Interact => if state == UserState::InGame { Route::Interact } else { Route::Unhandled },
            PacketKind::ChangeClassRequest => if state == UserState::InGame { Route::ChangeClassRequest } else { Route::Unhandled },
            PacketKind::ActionUpdate => if state == UserState::InGame { Route::SendPosition } else { Route::Unhandled },
            PacketKind::MovementEnd => if state == UserState::InGame { Route::SetPositionAndSend } else { Route::Unhandled },
            PacketKind::ActionEnd => if state == UserState::InGame { Route::SendPosition } else { Route::Unhandled },
            PacketKind::DealDamage => if state == UserState::InGame { Route::DealDamage } else { Route::Unhandled },
            PacketKind::ChatMessage => if state == UserState::InGame { Route::ChatMessage } else { Route::Unhandled },
            PacketKind::MinimapRevealRequest => if state == UserState::InGame { Route::ShowChunkId } else { Route::Unhandled },
            PacketKind::AvailableQuestsRequest => if state == UserState::InGame { Route::AvailableQuestsRequest } else { Route::Unhandled },
            PacketKind::QuestCategoryRequest => if state == UserState::InGame { Route::QuestCategoryRequest } else { Route::Unhandled },
            PacketKind::QuestDifficultyRequest => if state == UserState::InGame { Route::QuestDifficultyRequest } else { Route::Unhandled },
            PacketKind::AcceptQuest => if state == UserState::InGame { Route::AcceptQuest } else { Route::Unhandled },
            PacketKind::QuestCounterRequest => if state == UserState::InGame { Route::QuestCounterRequest } else { Route::Unhandled },
            PacketKind::AcceptStoryQuest => if state == UserState::InGame { Route::AcceptStoryQuest } else { Route::Unhandled },
            PacketKind::PartyInviteRequest => if state == UserState::InGame { Route::PartyInviteRequest } else { Route::Unhandled },
            PacketKind::AcceptInvite => if state == UserState::InGame { Route::AcceptInvite } else { Route::Unhandled },
            PacketKind::LeaveParty => if state == UserState::InGame { Route::LeaveParty } else { Route::Unhandled },
            PacketKind::NewPartySettings => if state == UserState::InGame { Route::NewPartySettings } else { Route::Unhandled },
            PacketKind::TransferLeader => if state == UserState::InGame { Route::TransferLeader } else { Route::Unhandled },
            PacketKind::KickMember => if state == UserState::InGame { Route::KickMember } else { Route::Unhandled },
            PacketKind::DisbandParty => if state == UserState::InGame { Route::DisbandParty } else { Route::Unhandled },
            PacketKind::ChatStatus => if state == UserState::InGame { Route::ChatStatus } else { Route::Unhandled },
            PacketKind::GetPartyDetails => if state == UserState::InGame { Route::GetPartyDetails } else { Route::Unhandled },
            PacketKind::SetBusy => if state == UserState::InGame { Route::SetBusy } else { Route::Unhandled },
            PacketKind::SetNotBusy => if state == UserState::InGame { Route::SetNotBusy } else { Route::Unhandled },
            PacketKind::SetInviteDecline => if state == UserState::InGame { Route::SetInviteDecline } else { Route::Unhandled },
            PacketKind::GetPartyInfo => if state == UserState::InGame { Route::GetPartyInfo } else { Route::Unhandled },
            PacketKind::EquipItemRequest => if state == UserState::InGame { Route::EquipItemRequest } else { Route::Unhandled },
            PacketKind::UnequipItemRequest => if state == UserState::InGame { Route::UnequipItemRequest } else { Route::Unhandled },
            PacketKind::MoveToStorageRequest => if state == UserState::InGame { Route::MoveToStorageRequest } else { Route::Unhandled },
            PacketKind::MoveToInventoryRequest => if state == UserState::InGame { Route::MoveToInventoryRequest } else { Route::Unhandled },
            PacketKind::MoveMeseta => if state == UserState::InGame { Route::MoveMeseta } else { Route::Unhandled },
            PacketKind::DiscardItemRequest => if state == UserState::InGame { Route::DiscardItemRequest } else { Route::Unhandled },
            PacketKind::MoveStoragesRequest => if state == UserState::InGame { Route::MoveStoragesRequest } else { Route::Unhandled },
            PacketKind::GetItemDescription => if state == UserState::InGame { Route::GetItemDescription } else { Route::Unhandled },
            PacketKind::DiscardStorageItemRequest => if state == UserState::InGame { Route::DiscardStorageItemRequest } else { Route::Unhandled },
            PacketKind::BlockSwitchRequest => if state == UserState::InGame { Route::BlockSwitchRequest } else { Route::Unhandled },
            PacketKind::FriendListRequest => if state == UserState::InGame { Route::FriendListRequest } else { Route::Unhandled },
            PacketKind::SetPalette => if state == UserState::InGame { Route::SetPalette } else { Route::Unhandled },
            PacketKind::UpdateSubPalette => if state == UserState::InGame { Route::UpdateSubPalette } else { Route::Unhandled },
            PacketKind::UpdatePalette => if state == UserState::InGame { Route::UpdatePalette } else { Route::Unhandled },
            PacketKind::SetSubPalette => if state == UserState::InGame { Route::SetSubPalette } else { Route::Unhandled },
            PacketKind::SetDefaultPAs => if state == UserState::InGame { Route::SetDefaultPAs } else { Route::Unhandled },
            PacketKind::SetFlag => if state == UserState::InGame { Route::SetFlag } else { Route::Unhandled },
            PacketKind::SkitItemAddRequest => if state == UserState::InGame { Route::SkitItemAddRequest } else { Route::Unhandled },
            PacketKind::CutsceneEnd => if state == UserState::InGame { Route::CutsceneEnd } else { Route::Unhandled },
            PacketKind::SymbolArtClientDataRequest => if state == UserState::InGame { Route::SymbolArtClientDataRequest } else { Route::Unhandled },
            PacketKind::SymbolArtData => if state == UserState::InGame { Route::SymbolArtData } else { Route::Unhandled },
            PacketKind::ChangeSymbolArt => if state == UserState::InGame { Route::ChangeSymbolArt } else { Route::Unhandled },
            PacketKind::SymbolArtListRequest => if state == UserState::InGame { Route::SymbolArtListRequest } else { Route::Unhandled },
            PacketKind::SendSymbolArt => if state == UserState::InGame { Route::SendSymbolArt } else { Route::Unhandled },
            PacketKind::MissionListRequest => if state == UserState::InGame { Route::MissionListRequest } else { Route::Unhandled },
            PacketKind::MissionPassInfoRequest => if state == UserState::InGame { Route::MissionPassInfoRequest } else { Route::Unhandled },
            PacketKind::MissionPassRequest => if state == UserState::InGame { Route::MissionPassRequest } else { Route::Unhandled },
            PacketKind::SegaIDLogin => if state == UserState::LoggingIn { Route::LoginRequest } else { Route::Unhandled },
            PacketKind::BlockLogin => if state == UserState::LoggingIn { Route::ChallengeLogin } else { Route::Unhandled },
            PacketKind::VitaLogin => if state == UserState::LoggingIn { Route::LoginRequest } else { Route::Unhandled },
            PacketKind::CharacterListRequest => if state == UserState::CharacterSelect { Route::CharacterListRequest } else { Route::Unhandled },
            PacketKind::StartGame => if state == UserState::CharacterSelect { Route::StartGame } else { Route::Unhandled },
            PacketKind::CharacterCreate => if state == UserState::CharacterSelect { Route::CharacterCreate } else { Route::Unhandled },
            PacketKind::CharacterDeletionRequest => if state == UserState::CharacterSelect { Route::CharacterDeletionRequest } else { Route::Unhandled },
            PacketKind::CreateCharacter1 => if state == UserState::CharacterSelect { Route::CreateCharacter1 } else { Route::Unhandled },
            PacketKind::CreateCharacter2 => if state == UserState::CharacterSelect { Route::CreateCharacter2 } else { Route::Unhandled },
            PacketKind::LoginHistoryRequest => if state == UserState::CharacterSelect { Route::LoginHistoryRequest } else { Route::Unhandled },
            PacketKind::CharacterUndeletionRequest => if state == UserState::CharacterSelect { Route::CharacterUndeletionRequest } else { Route::Unhandled },
            PacketKind::CharacterRenameRequest => if state == UserState::CharacterSelect { Route::CharacterRenameRequest } else { Route::Unhandled },
            PacketKind::CharacterNewNameRequest => if state == UserState::CharacterSelect { Route::CharacterNewNameRequest } else { Route::Unhandled },
            PacketKind::CharacterMoveRequest => if state == UserState::CharacterSelect { Route::CharacterMoveRequest } else { Route::Unhandled },
            PacketKind::NicknameResponse => if state == UserState::NewUsername { Route::NicknameResponse } else { Route::Unhandled },
            PacketKind::FullPaletteInfoRequest => if state.at_least(&UserState::PreInGame) { Route::FullPaletteInfoRequest } else { Route::Unhandled },
            PacketKind::SettingsRequest => if state.at_least(&UserState::NewUsername) { Route::SettingsRequest } else { Route::Unhandled },
            PacketKind::SaveSettings => if state.at_least(&UserState::NewUsername) { Route::SaveSettings } else { Route::Unhandled },
            PacketKind::Other => Route::Unhandled,
    }
}

/// What a periodic check of a connection decides.
#[derive(Clone, Copy, Debug, PartialEq, Eq, Structural)]
pub enum TickAction {
    /// Close the connection.
    Disconnect,
    /// Send a ping and count it as unanswered.
    Ping,
    /// Nothing to do.
    Nothing,
}

/// How many unanswered pings close a connection.
pub const MAX_FAILED_PINGS: u32 = 5;

/// The periodic check of a connection: a client that said goodbye is dropped
/// half a second after its last message, a client with five unanswered pings
/// is dropped, and a client silent for ten seconds is pinged.
pub open spec fn tick_spec(ready_to_shutdown: bool, failed_pings: u32, elapsed_ms: u64) -> TickAction {
    if ready_to_shutdown && elapsed_ms >= 500 {
        TickAction::Disconnect
    } else if failed_pings >= MAX_FAILED_PINGS {
        TickAction::Disconnect
    } else if elapsed_ms >= 10000 {
        TickAction::Ping
    } else {
        TickAction::Nothing
    }
}

/// Decides what to do with a connection, given whether the client said goodbye,
/// how many pings went unanswered and the milliseconds since the last ping
/// (or goodbye). Returns the action and the new count of unanswered pings.
pub fn tick(ready_to_shutdown: bool, failed_pings: u32, elapsed_ms: u64) -> (r: (TickAction, u32))
    ensures
        r.0 == tick_spec(ready_to_shutdown, failed_pings, elapsed_ms),
        r.1 == if r.0 == TickAction::Ping { failed_pings + 1 } else { failed_pings as int },
{
    if ready_to_shutdown && elapsed_ms >= 500 {
        return (TickAction::Disconnect, failed_pings);
    }
    if failed_pings >= MAX_FAILED_PINGS {
        return (TickAction::Disconnect, failed_pings);
    }
    if elapsed_ms >= 10000 {
        return (TickAction::Ping, failed_pings + 1);
    }
    (TickAction::Nothing, failed_pings)
}

/// A connection is never pinged more than five times without an answer: from
/// fewer than five unanswered pings a check leaves at most five, and from five
/// or more it closes the connection.
pub proof fn law_pings_bounded(ready_to_shutdown: bool, failed_pings: u32, elapsed_ms: u64)
    ensures
        failed_pings >= MAX_FAILED_PINGS ==> tick_spec(ready_to_shutdown, failed_pings, elapsed_ms)
            == TickAction::Disconnect,
        tick_spec(ready_to_shutdown, failed_pings, elapsed_ms) == TickAction::Ping ==> failed_pings
            + 1 <= MAX_FAILED_PINGS,
{
}

/// The liveness state of a connection: how many pings went unanswered,
/// whether the client said goodbye, and when (in milliseconds, on the
/// server's clock) the last ping was sent or the goodbye received.
#[derive(Clone, Copy, Debug, PartialEq, Eq, Structural)]
pub struct PingState {
    pub failed_pings: u32,
    pub ready_to_shutdown: bool,
    pub last_ping_ms: u64,
}

/// Milliseconds from `since` to `now`, or 0 when `now` is earlier.
pub open spec fn elapsed_ms(now: u64, since: u64) -> u64 {
    if now >= since {
        (now - since) as u64
    } else {
        0
    }
}

impl PingState {
    /// A fresh connection, last pinged at `now`.
    pub fn new(now: u64) -> (r: Self)
        ensures
            r == (PingState { failed_pings: 0, ready_to_shutdown: false, last_ping_ms: now }),
    {
        PingState { failed_pings: 0, ready_to_shutdown: false, last_ping_ms: now }
    }

    /// The periodic check at time `now` (see [`tick_spec`]): a ping counts as
    /// unanswered and restarts the clock; otherwise nothing changes.
    pub fn tick_at(&mut self, now: u64) -> (r: TickAction)
        ensures
            r == tick_spec(old(self).ready_to_shutdown, old(self).failed_pings, elapsed_ms(now, old(self).last_ping_ms)),
            r == TickAction::Ping ==> *final(self) == (PingState {
                failed_pings: (old(self).failed_pings + 1) as u32,
                last_ping_ms: now,
                ..*old(self)
            }),
            r != TickAction::Ping ==> *final(self) == *old(self),
    {
        let elapsed = now.saturating_sub(self.last_ping_ms);
        let (action, failed) = tick(self.ready_to_shutdown, self.failed_pings, elapsed);
        if action == TickAction::Ping {
            self.failed_pings = failed;
            self.last_ping_ms = now;
        }
        action
    }

    /// The client answered a ping: no ping is unanswered any more.
    pub fn on_pong(&mut self)
        ensures
            *final(self) == (PingState { failed_pings: 0, ..*old(self) }),
    {
        self.failed_pings = 0;
    }

    /// The client said goodbye at time `now`: it is dropped once half a second
    /// has passed.
    pub fn on_goodbye(&mut self, now: u64)
        ensures
            *final(self) == (PingState { ready_to_shutdown: true, last_ping_ms: now, ..*old(self) }),
    {
        self.ready_to_shutdown = true;
        self.last_ping_ms = now;
    }
}

/// A client that said goodbye at `t` is dropped by any check at `t + 500` ms
/// or later.
pub proof fn law_goodbye_then_disconnect(s: PingState, t: u64, now: u64)
    requires
        now >= t + 500,
    ensures
        tick_spec(true, s.failed_pings, elapsed_ms(now, t)) == TickAction::Disconnect,
{
}

// ---------------------------------------------------------------------------
// Logins
// ---------------------------------------------------------------------------

/// What the database said about a SEGA ID login.
#[derive(Clone, Copy, Debug, PartialEq, Eq, Structural)]
pub enum LoginCheck {
    /// The account exists and the password matches; whether it has a nickname.
    Found { has_nickname: bool },
    InvalidPassword,
    /// The username or the password is empty.
    EmptyCredentials,
}

/// What happens after a login.
#[derive(Clone, Copy, Debug, PartialEq, Eq, Structural)]
pub enum LoginStep {
    /// The login is refused (wrong password) and the client dropped.
    RefuseInvalidPassword,
    /// The login is refused (empty username or password) and the client dropped.
    RefuseEmpty,
    /// The player must choose a nickname first.
    AskNickname,
    /// The player is logged in.
    LoggedIn,
}

/// The next step of a login: a wrong or empty password is refused, a player
/// without a nickname is asked for one, anyone else is logged in.
pub open spec fn login_step_spec(check: LoginCheck) -> LoginStep {
    match check {
        LoginCheck::Found { has_nickname } => if has_nickname {
            LoginStep::LoggedIn
        } else {
            LoginStep::AskNickname
        },
        LoginCheck::InvalidPassword => LoginStep::RefuseInvalidPassword,
        LoginCheck::EmptyCredentials => LoginStep::RefuseEmpty,
    }
}

/// The message a refused login is answered with.
pub fn refusal_message(step: LoginStep) -> (r: Option<&'static str>)
    ensures
        step == LoginStep::RefuseInvalidPassword ==> (r matches Some(m) && m@ == "Invalid username or password"@),
        step == LoginStep::RefuseEmpty ==> (r matches Some(m) && m@ == "Empty username or password"@),
        step != LoginStep::RefuseInvalidPassword && step != LoginStep::RefuseEmpty ==> r is None,
{
    match step {
        LoginStep::RefuseInvalidPassword => Some("Invalid username or password"),
        LoginStep::RefuseEmpty => Some("Empty username or password"),
        _ => None,
    }
}

/// Decides the next step of a login (see [`login_step_spec`]).
pub fn login_step(check: LoginCheck) -> (r: LoginStep)
    ensures
        r == login_step_spec(check),
{
    match check {
        LoginCheck::Found { has_nickname } => if has_nickname {
            LoginStep::LoggedIn
        } else {
            LoginStep::AskNickname
        },
        LoginCheck::InvalidPassword => LoginStep::RefuseInvalidPassword,
        LoginCheck::EmptyCredentials => LoginStep::RefuseEmpty,
    }
}

/// The position of the block the player is on in the block list (it is
/// listed first), if it is listed.
pub fn current_block_position(block_ids: &Vec<u16>, current: u32) -> (r: Option<usize>)
    ensures
        r matches Some(p) ==> p < block_ids@.len() && block_ids@[p as int] as u32 == current && forall|j: int|
            0 <= j < p ==> block_ids@[j] as u32 != current,
        r is None ==> forall|j: int| 0 <= j < block_ids@.len() ==> block_ids@[j] as u32 != current,
{
    let mut i: usize = 0;
    while i < block_ids.len()
        invariant
            i <= block_ids@.len(),
            forall|j: int| 0 <= j < i ==> block_ids@[j] as u32 != current,
        decreases block_ids@.len() - i,
    {
        if block_ids[i] as u32 == current {
            return Some(i);
        }
        i = i + 1;
    }
    None
}

/// An address that names no interface in particular (`0.0.0.0`).
pub open spec fn is_unspecified(ip: [u8; 4]) -> bool {
    ip[0] == 0 && ip[1] == 0 && ip[2] == 0 && ip[3] == 0
}

/// The address a block is announced under: where it listens on every
/// interface, the address the client reached this server on, when that is
/// an IPv4 address.
pub open spec fn announced_ip(ip: [u8; 4], local_ip: Option<[u8; 4]>) -> [u8; 4] {
    if is_unspecified(ip) && local_ip is Some {
        local_ip->0
    } else {
        ip
    }
}

/// Answers a block-balance request: every block listening on all interfaces
/// takes the address the client reached (see [`announced_ip`]), then one block
/// is drawn at random; its position is returned.
pub fn balance_block(ips: &mut Vec<[u8; 4]>, local_ip: Option<[u8; 4]>) -> (r: usize)
    requires
        old(ips)@.len() > 0,
    ensures
        final(ips)@.len() == old(ips)@.len(),
        forall|i: int| 0 <= i < old(ips)@.len() ==> #[trigger] final(ips)@[i] == announced_ip(old(ips)@[i], local_ip),
        r < final(ips)@.len(),
{
    let mut i: usize = 0;
    while i < ips.len()
        invariant
            i <= ips@.len(),
            ips@.len() == old(ips)@.len(),
            forall|j: int| 0 <= j < i ==> #[trigger] ips@[j] == announced_ip(old(ips)@[j], local_ip),
            forall|j: int| i <= j < ips@.len() ==> #[trigger] ips@[j] == old(ips)@[j],
        decreases ips@.len() - i,
    {
        let ip = ips[i];
        if ip[0] == 0 && ip[1] == 0 && ip[2] == 0 && ip[3] == 0 {
            if let Some(l) = local_ip {
                ips.set(i, l);
            }
        }
        i = i + 1;
    }
    match pick_below(ips.len()) {
        Some(k) => k,
        None => 0,
    }
}

// ---------------------------------------------------------------------------
// Symbol art slots
// ---------------------------------------------------------------------------

/// The saved symbol arts after the changes `(uuid, slot)` are applied in
/// order; a slot outside the list is ignored.
pub open spec fn sa_slots(list: Seq<u128>, changes: Seq<(u128, u32)>) -> Seq<u128>
    decreases changes.len(),
{
    if changes.len() == 0 {
        list
    } else {
        let prev = sa_slots(list, changes.drop_last());
        let (uuid, slot) = changes.last();
        if slot < prev.len() {
            prev.update(slot as int, uuid)
        } else {
            prev
        }
    }
}

proof fn lemma_sa_slots_len(list: Seq<u128>, changes: Seq<(u128, u32)>)
    ensures
        sa_slots(list, changes).len() == list.len(),
    decreases changes.len(),
{
    if changes.len() > 0 {
        lemma_sa_slots_len(list, changes.drop_last());
    }
}

/// Applies symbol art slot changes to the saved list (see [`sa_slots`]).
pub fn change_sa_slots(list: &mut Vec<u128>, changes: &Vec<(u128, u32)>)
    ensures
        final(list)@ == sa_slots(old(list)@, changes@),
{
    let ghost start = list@;
    let mut i: usize = 0;
    while i < changes.len()
        invariant
            i <= changes@.len(),
            list@ == sa_slots(start, changes@.take(i as int)),
            start == old(list)@,
        decreases changes@.len() - i,
    {
        proof {
            assert(changes@.take(i + 1).drop_last() =~= changes@.take(i as int));
            lemma_sa_slots_len(start, changes@.take(i as int));
        }
        let (uuid, slot) = changes[i];
        if (slot as usize) < list.len() {
            list.set(slot as usize, uuid);
        }
        i = i + 1;
    }
    proof {
        assert(changes@.take(i as int) =~= changes@);
    }
}

} // verus!
