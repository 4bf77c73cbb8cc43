//! The route table and its dispatcher: a static list of
//! `(method, path pattern, handler)` bindings built once at startup,
//! dispatched by first match. A pattern segment written `:name` matches
//! any one non-empty path segment. Unmatched requests go to the
//! terminal fallback handler. The handlers themselves are external
//! collaborators; the table names them.

use vstd::prelude::*;
use crate::text::chars_of;

verus! {

/// An HTTP method the table distinguishes.
#[derive(PartialEq, Eq, Structural, Clone, Copy, Debug)]
pub enum Method {
    Get,
    Post,
}

/// The handler a request is routed to. `Fallback` is the terminal
/// route for everything the table does not name.
#[derive(PartialEq, Eq, Structural, Clone, Copy, Debug)]
pub enum HandlerId {
    AppV1Config,
    AppGetSettings,
    AppGetCode,
    AccountLogin,
    AccountSyncStatus,
    AccountSyncData,
    AccountYostarAuthReq,
    AccountYostarAuthSubmit,
    RelicSelect,
    QuestBattleStart,
    QuestBattleFinish,
    SetTool,
    Act5FunBattleFinish,
    Act4FunBattleFinish,
    Act4FunLiveSettle,
    BuildingSync,
    BuildingGetRecentVisitors,
    BuildingGetInfoShareVisitorNum,
    BuildingGetAssistReport,
    BuildingChangeDiySolution,
    BuildingAssignChar,
    BuildingSetBuildingAssist,
    ChangeNameComponent,
    ChangeCardSkin,
    Campaignv2BattleStart,
    Campaignv2BattleFinish,
    Campaignv2BattleSweep,
    CharChangeMarkStar,
    CharBuildAddonStoryUnlock,
    CharBuildBatchSetCharVoiceLan,
    CharBuildSetCharVoiceLan,
    CharBuildSetCharDefaultSkill,
    CharBuildChangeCharSkin,
    CharBuildSetCharEquipment,
    CharBuildChangeCharTemplate,
    ProdAndroidVersion,
    ProdNetworkConfig,
    ProdRemoteConfig,
    ProdRefreshConfig,
    ProdAnnouncement,
    ProdPreAnnouncement,
    CrisisV2GetInfo,
    CrisisV2BattleStart,
    CrisisV2BattleFinish,
    CrisisV2GetSnapshot,
    DeepSeaBranch,
    DeepSeaEvent,
    OnlineV1Ping,
    OnlineV1LoginOut,
    SquadChangeName,
    SquadSetFormation,
    QuestSaveBattleReplay,
    QuestGetBattleReplay,
    Act20CompetitionStart,
    Act20CompetitionFinish,
    PayGetUnconfirmedOrderIdList,
    SocialSetAssistCharList,
    SocialSetCardMedal,
    SocialGetSortListInfo,
    SocialSearchPlayer,
    StoryFinishStory,
    MarkStoryAcceKnown,
    ReadStory,
    AgreementVersion,
    UserV1GetToken,
    PayGetAllProdList,
    UserAuth,
    AuthV1TokenByPhonePassword,
    UserAgreement,
    UserCheckIn,
    UserChangeAvatar,
    UserChangeSecretary,
    UserNeedCloudAuth,
    InfoV1Basic,
    UserLogin,
    UserOauth2V1Grant,
    UserOauth2V2Grant,
    UserYostarCreateLogin,
    GeneralV1ServerTime,
    BackgroundSetBg,
    HomeThemeChange,
    CharmSetSquad,
    ConfirmBattleCar,
    SetTrapSquad,
    GetFile,
    Fallback,
}

/// One binding of the table.
pub struct RouteEntry {
    pub method: Method,
    pub path: Vec<char>,
    pub handler: HandlerId,
}

/// The ghost model of a table.
pub open spec fn table_model(ts: Seq<RouteEntry>) -> Seq<(Method, Seq<char>, HandlerId)> {
    Seq::new(ts.len(), |i: int| (ts[i].method, ts[i].path@, ts[i].handler))
}

pub broadcast proof fn lemma_table_model_len(ts: Seq<RouteEntry>)
    ensures
        (#[trigger] table_model(ts)).len() == ts.len(),
{
}

pub broadcast proof fn lemma_table_model_index(ts: Seq<RouteEntry>, i: int)
    requires
        0 <= i < ts.len(),
    ensures
        #[trigger] table_model(ts)[i] == (ts[i].method, ts[i].path@, ts[i].handler),
{
}

pub broadcast group group_route_axioms {
    lemma_table_model_len,
    lemma_table_model_index,
}

/// The position of the end of the path segment that starts at or
/// contains position `i`: the next `/`, or the end of the text.
pub open spec fn seg_end(s: Seq<char>, i: int) -> int
    decreases s.len() - i,
{
    if !(0 <= i < s.len()) {
        s.len() as int
    } else if s[i] == '/' {
        i
    } else {
        seg_end(s, i + 1)
    }
}

pub proof fn lemma_seg_end_bounds(s: Seq<char>, i: int)
    requires
        0 <= i <= s.len(),
    ensures
        i <= seg_end(s, i) <= s.len(),
    decreases s.len() - i,
{
    if i < s.len() && s[i] != '/' {
        lemma_seg_end_bounds(s, i + 1);
    }
}

/// Whether pattern `p` from position `i` matches path `s` from
/// position `j`. A `:` starts a wildcard that consumes one non-empty
/// path segment; every other character must match literally.
pub open spec fn pat_match_from(p: Seq<char>, s: Seq<char>, i: int, j: int) -> bool
    decreases p.len() - i + s.len() - j,
{
    if i == p.len() && j == s.len() {
        true
    } else if 0 <= i < p.len() && p[i] == ':' {
        let pe = seg_end(p, i);
        let je = seg_end(s, j);
        if i + 1 <= pe <= p.len() && j + 1 <= je <= s.len() {
            pat_match_from(p, s, pe, je)
        } else {
            false
        }
    } else if 0 <= i < p.len() && 0 <= j < s.len() && p[i] == s[j] {
        pat_match_from(p, s, i + 1, j + 1)
    } else {
        false
    }
}

/// A pattern matches a whole path.
pub open spec fn pat_match(p: Seq<char>, s: Seq<char>) -> bool {
    pat_match_from(p, s, 0, 0)
}

/// The handler of the first binding whose method and pattern match;
/// the fallback where none does.
pub open spec fn dispatch_model(
    table: Seq<(Method, Seq<char>, HandlerId)>,
    m: Method,
    path: Seq<char>,
) -> HandlerId
    decreases table.len(),
{
    if table.len() == 0 {
        HandlerId::Fallback
    } else if table[0].0 == m && pat_match(table[0].1, path) {
        table[0].2
    } else {
        dispatch_model(table.drop_first(), m, path)
    }
}

/// Dispatch never depends on anything but the table, the method and
/// the path: two equal requests resolve to the same handler or to the
/// same fallback outcome, in whatever order they are made.
pub proof fn lemma_dispatch_deterministic(
    table: Seq<(Method, Seq<char>, HandlerId)>,
    method_a: Method,
    path_a: Seq<char>,
    method_b: Method,
    path_b: Seq<char>,
)
    requires
        method_a == method_b,
        path_a == path_b,
    ensures
        dispatch_model(table, method_a, path_a) == dispatch_model(table, method_b, path_b),
{
}

pub proof fn lemma_dispatch_hit(
    table: Seq<(Method, Seq<char>, HandlerId)>,
    m: Method,
    path: Seq<char>,
    i: int,
)
    requires
        0 <= i < table.len(),
        table[i].0 == m && pat_match(table[i].1, path),
        forall|j: int| 0 <= j < i ==> !(table[j].0 == m && pat_match(table[j].1, path)),
    ensures
        dispatch_model(table, m, path) == table[i].2,
    decreases i,
{
    if i > 0 {
        lemma_dispatch_hit(table.drop_first(), m, path, i - 1);
    }
}

pub proof fn lemma_dispatch_miss(table: Seq<(Method, Seq<char>, HandlerId)>, m: Method, path: Seq<char>)
    requires
        forall|j: int| 0 <= j < table.len() ==> !(table[j].0 == m && pat_match(table[j].1, path)),
    ensures
        dispatch_model(table, m, path) == HandlerId::Fallback,
    decreases table.len(),
{
    if table.len() > 0 {
        lemma_dispatch_miss(table.drop_first(), m, path);
    }
}

/// The end of the current segment, executable form.
fn seg_end_exec(s: &Vec<char>, i: usize) -> (r: usize)
    requires
        i <= s@.len(),
    ensures
        r as int == seg_end(s@, i as int),
        i <= r <= s@.len(),
{
    let n = s.len();
    let mut k = i;
    while k < n && s[k] != '/'
        invariant
            i <= k <= n,
            n == s@.len(),
            seg_end(s@, i as int) == seg_end(s@, k as int),
        decreases n - k,
    {
        k = k + 1;
    }
    k
}

/// Whether the pattern matches the path, executable form.
pub fn path_matches(p: &Vec<char>, s: &Vec<char>) -> (r: bool)
    ensures
        r == pat_match(p@, s@),
{
    path_matches_from(p, s, 0, 0)
}

fn path_matches_from(p: &Vec<char>, s: &Vec<char>, i: usize, j: usize) -> (r: bool)
    requires
        i <= p@.len(),
        j <= s@.len(),
    ensures
        r == pat_match_from(p@, s@, i as int, j as int),
    decreases p@.len() - i + s@.len() - j,
{
    let pn = p.len();
    let sn = s.len();
    if i == pn && j == sn {
        return true;
    }
    if i < pn && p[i] == ':' {
        let pe = seg_end_exec(p, i);
        let je = seg_end_exec(s, j);
        proof {
            lemma_seg_end_bounds(p@, i + 1);
            assert(seg_end(p@, i as int) == seg_end(p@, i + 1));
        }
        if je > j {
            return path_matches_from(p, s, pe, je);
        }
        return false;
    }
    if i < pn && j < sn && p[i] == s[j] {
        return path_matches_from(p, s, i + 1, j + 1);
    }
    false
}

/// Resolves a request against the table: the handler of the first
/// matching binding, the fallback where none matches.
pub fn dispatch(table: &Vec<RouteEntry>, method: Method, path: &Vec<char>) -> (r: HandlerId)
    ensures
        r == dispatch_model(table_model(table@), method, path@),
{
    broadcast use group_route_axioms;

    let n = table.len();
    let mut i: usize = 0;
    while i < n
        invariant
            n == table@.len(),
            i <= n,
            forall|j: int|
                0 <= j < i ==> !(#[trigger] table_model(table@)[j].0 == method && pat_match(
                    table_model(table@)[j].1,
                    path@,
                )),
        decreases n - i,
    {
        if table[i].method == method && path_matches(&table[i].path, path) {
            proof {
                lemma_dispatch_hit(table_model(table@), method, path@, i as int);
            }
            return table[i].handler;
        }
        i = i + 1;
    }
    proof {
        lemma_dispatch_miss(table_model(table@), method, path@);
    }
    HandlerId::Fallback
}

/// Every binding of the table, in registration order.
pub open spec fn routes_spec() -> Seq<(Method, Seq<char>, HandlerId)> {
    seq![
        (Method::Get, "/app/v1/config"@, HandlerId::AppV1Config),
        (Method::Post, "/app/getSettings"@, HandlerId::AppGetSettings),
        (Method::Post, "/app/getCode"@, HandlerId::AppGetCode),
        (Method::Post, "/account/login"@, HandlerId::AccountLogin),
        (Method::Post, "/account/syncStatus"@, HandlerId::AccountSyncStatus),
        (Method::Post, "/account/syncData"@, HandlerId::AccountSyncData),
        (Method::Post, "/account/yostar_auth_request"@, HandlerId::AccountYostarAuthReq),
        (Method::Post, "/account/yostar_auth_submit"@, HandlerId::AccountYostarAuthSubmit),
        (Method::Post, "/activity/bossRush/relicSelect"@, HandlerId::RelicSelect),
        (Method::Post, "/activity/bossRush/battleStart"@, HandlerId::QuestBattleStart),
        (Method::Post, "/activity/act24side/battleStart"@, HandlerId::QuestBattleStart),
        (Method::Post, "/activity/act24side/battleFinish"@, HandlerId::QuestBattleFinish),
        (Method::Post, "/activity/act24side/setTool"@, HandlerId::SetTool),
        (Method::Post, "/act25side/battleStart"@, HandlerId::QuestBattleStart),
        (Method::Post, "/act25side/battleFinish"@, HandlerId::QuestBattleFinish),
        (Method::Post, "/aprilFool/act5fun/battleStart"@, HandlerId::QuestBattleStart),
        (Method::Post, "/aprilFool/act5fun/battleFinish"@, HandlerId::Act5FunBattleFinish),
        (Method::Post, "/aprilFool/act4fun/battleStart"@, HandlerId::QuestBattleStart),
        (Method::Post, "/aprilFool/act4fun/battleFinish"@, HandlerId::Act4FunBattleFinish),
        (Method::Post, "/aprilFool/act4fun/liveSettle"@, HandlerId::Act4FunLiveSettle),
        (Method::Post, "/aprilFool/act3fun/battleStart"@, HandlerId::QuestBattleStart),
        (Method::Post, "/aprilFool/act3fun/battleFinish"@, HandlerId::QuestBattleFinish),
        (Method::Post, "/building/sync"@, HandlerId::BuildingSync),
        (Method::Post, "/building/getRecentVisitors"@, HandlerId::BuildingGetRecentVisitors),
        (Method::Post, "/building/getInfoShareVisitorsNum"@, HandlerId::BuildingGetInfoShareVisitorNum),
        (Method::Post, "/building/getAssistReport"@, HandlerId::BuildingGetAssistReport),
        (Method::Post, "/building/changeDiySolution"@, HandlerId::BuildingChangeDiySolution),
        (Method::Post, "/building/assignChar"@, HandlerId::BuildingAssignChar),
        (Method::Post, "/building/setBuildingAssist"@, HandlerId::BuildingSetBuildingAssist),
        (Method::Post, "/businessCard/changeNameCardComponent"@, HandlerId::ChangeNameComponent),
        (Method::Post, "/businessCard/changeNameCardSkin"@, HandlerId::ChangeCardSkin),
        (Method::Post, "/campaignV2/battleStart"@, HandlerId::Campaignv2BattleStart),
        (Method::Post, "/campaignV2/battleFinish"@, HandlerId::Campaignv2BattleFinish),
        (Method::Post, "/campaignV2/battleSweep"@, HandlerId::Campaignv2BattleSweep),
        (Method::Post, "/char/changeMarkStar"@, HandlerId::CharChangeMarkStar),
        (Method::Post, "/charBuild/addonStage/battleStart"@, HandlerId::QuestBattleStart),
        (Method::Post, "/charBuild/addonStage/battleFinish"@, HandlerId::QuestBattleFinish),
        (Method::Post, "/charBuild/addonStory/unlock"@, HandlerId::CharBuildAddonStoryUnlock),
        (Method::Post, "/charBuild/batchSetCharVoiceLan"@, HandlerId::CharBuildBatchSetCharVoiceLan),
        (Method::Post, "/charBuild/setCharVoiceLan"@, HandlerId::CharBuildSetCharVoiceLan),
        (Method::Post, "/charBuild/setDefaultSkill"@, HandlerId::CharBuildSetCharDefaultSkill),
        (Method::Post, "/charBuild/changeCharSkin"@, HandlerId::CharBuildChangeCharSkin),
        (Method::Post, "/charBuild/setEquipment"@, HandlerId::CharBuildSetCharEquipment),
        (Method::Post, "/charBuild/changeCharTemplate"@, HandlerId::CharBuildChangeCharTemplate),
        (Method::Get, "/config/prod/official/Android/version"@, HandlerId::ProdAndroidVersion),
        (Method::Get, "/config/prod/official/network_config"@, HandlerId::ProdNetworkConfig),
        (Method::Get, "/config/prod/official/remote_config"@, HandlerId::ProdRemoteConfig),
        (Method::Get, "/config/prod/official/refresh_config"@, HandlerId::ProdRefreshConfig),
        (Method::Get, "/config/prod/announce_meta/Android/announcement.meta.jsons"@, HandlerId::ProdAnnouncement),
        (Method::Get, "/config/prod/announce_meta/Android/preannouncement.meta.json"@, HandlerId::ProdPreAnnouncement),
        (Method::Post, "/crisisV2/getInfo"@, HandlerId::CrisisV2GetInfo),
        (Method::Post, "/crisisV2/battleStart"@, HandlerId::CrisisV2BattleStart),
        (Method::Post, "/crisisV2/battleFinish"@, HandlerId::CrisisV2BattleFinish),
        (Method::Post, "/crisisV2/getSnapshot"@, HandlerId::CrisisV2GetSnapshot),
        (Method::Post, "/deepSea/branch"@, HandlerId::DeepSeaBranch),
        (Method::Post, "/deepSea/event"@, HandlerId::DeepSeaEvent),
        (Method::Post, "/online/v1/ping"@, HandlerId::OnlineV1Ping),
        (Method::Post, "/online/v1/loginout"@, HandlerId::OnlineV1LoginOut),
        (Method::Post, "/quest/battleStart"@, HandlerId::QuestBattleStart),
        (Method::Post, "/quest/battleFinish"@, HandlerId::QuestBattleFinish),
        (Method::Post, "/quest/changeSquadName"@, HandlerId::SquadChangeName),
        (Method::Post, "/quest/squadFormation"@, HandlerId::SquadSetFormation),
        (Method::Post, "/quest/saveBattleReplay"@, HandlerId::QuestSaveBattleReplay),
        (Method::Post, "/quest/getBattleReplay"@, HandlerId::QuestGetBattleReplay),
        (Method::Post, "/retro/typeAct20side/competitionStart"@, HandlerId::Act20CompetitionStart),
        (Method::Post, "/retro/typeAct20side/competitionFinish"@, HandlerId::Act20CompetitionFinish),
        (Method::Post, "/shop/getSkinGoodList"@, HandlerId::PayGetUnconfirmedOrderIdList),
        (Method::Post, "/social/setAssistCharList"@, HandlerId::SocialSetAssistCharList),
        (Method::Post, "/social/setCardShowMedal"@, HandlerId::SocialSetCardMedal),
        (Method::Post, "/social/getSortListInfo"@, HandlerId::SocialGetSortListInfo),
        (Method::Post, "/social/searchPlayer"@, HandlerId::SocialSearchPlayer),
        (Method::Post, "/story/finishStory"@, HandlerId::StoryFinishStory),
        (Method::Post, "/storyreview/markStoryAcceKnown"@, HandlerId::MarkStoryAcceKnown),
        (Method::Post, "/storyreview/readStory"@, HandlerId::ReadStory),
        (Method::Get, "/u8/user/auth/v1/agreement_version"@, HandlerId::AgreementVersion),
        (Method::Post, "/u8/user/v1/getToken"@, HandlerId::UserV1GetToken),
        (Method::Post, "/u8/pay/getAllProductList"@, HandlerId::PayGetAllProdList),
        (Method::Post, "/user/auth"@, HandlerId::UserAuth),
        (Method::Post, "/user/auth/v1/token_by_phone_password"@, HandlerId::AuthV1TokenByPhonePassword),
        (Method::Get, "/user/agreement"@, HandlerId::UserAgreement),
        (Method::Get, "/user/checkIn"@, HandlerId::UserCheckIn),
        (Method::Post, "/user/changeAvatar"@, HandlerId::UserChangeAvatar),
        (Method::Post, "/user/changeSecretary"@, HandlerId::UserChangeSecretary),
        (Method::Post, "/user/info/v1/need_cloud_auth"@, HandlerId::UserNeedCloudAuth),
        (Method::Get, "/user/info/v1/basic"@, HandlerId::InfoV1Basic),
        (Method::Post, "/user/login"@, HandlerId::UserLogin),
        (Method::Post, "/user/oauth2/v1/grant"@, HandlerId::UserOauth2V1Grant),
        (Method::Post, "/user/oauth2/v2/grant"@, HandlerId::UserOauth2V2Grant),
        (Method::Post, "/user/yostar_createlogin"@, HandlerId::UserYostarCreateLogin),
        (Method::Get, "/general/v1/server_time"@, HandlerId::GeneralV1ServerTime),
        (Method::Post, "/pay/getUnconfirmedOrderIdList"@, HandlerId::PayGetUnconfirmedOrderIdList),
        (Method::Post, "/background/setBackground"@, HandlerId::BackgroundSetBg),
        (Method::Post, "/homeTheme/change"@, HandlerId::HomeThemeChange),
        (Method::Post, "/charm/setSquad"@, HandlerId::CharmSetSquad),
        (Method::Post, "/car/confirmBattleCar"@, HandlerId::ConfirmBattleCar),
        (Method::Post, "/templateTrap/setTrapSquad"@, HandlerId::SetTrapSquad),
        (Method::Get, "/assetbundle/official/Android/assets/:hash/:name"@, HandlerId::GetFile),
    ]
}

/// Builds the route table, one binding per registered route of the
/// original surface, in the same order.
#[verifier::rlimit(100)]
pub fn routes() -> (r: Vec<RouteEntry>)
    ensures
        table_model(r@) == routes_spec(),
{
    broadcast use group_route_axioms;

    let mut t: Vec<RouteEntry> = Vec::new();
    t.push(RouteEntry { method: Method::Get, path: chars_of("/app/v1/config"), handler: HandlerId::AppV1Config });
    t.push(RouteEntry { method: Method::Post, path: chars_of("/app/getSettings"), handler: HandlerId::AppGetSettings });
    t.push(RouteEntry { method: Method::Post, path: chars_of("/app/getCode"), handler: HandlerId::AppGetCode });
    t.push(RouteEntry { method: Method::Post, path: chars_of("/account/login"), handler: HandlerId::AccountLogin });
    t.push(RouteEntry { method: Method::Post, path: chars_of("/account/syncStatus"), handler: HandlerId::AccountSyncStatus });
    t.push(RouteEntry { method: Method::Post, path: chars_of("/account/syncData"), handler: HandlerId::AccountSyncData });
    t.push(RouteEntry { method: Method::Post, path: chars_of("/account/yostar_auth_request"), handler: HandlerId::AccountYostarAuthReq });
    t.push(RouteEntry { method: Method::Post, path: chars_of("/account/yostar_auth_submit"), handler: HandlerId::AccountYostarAuthSubmit });
    t.push(RouteEntry { method: Method::Post, path: chars_of("/activity/bossRush/relicSelect"), handler: HandlerId::RelicSelect });
    t.push(RouteEntry { method: Method::Post, path: chars_of("/activity/bossRush/battleStart"), handler: HandlerId::QuestBattleStart });
    t.push(RouteEntry { method: Method::Post, path: chars_of("/activity/act24side/battleStart"), handler: HandlerId::QuestBattleStart });
    t.push(RouteEntry { method: Method::Post, path: chars_of("/activity/act24side/battleFinish"), handler: HandlerId::QuestBattleFinish });
    t.push(RouteEntry { method: Method::Post, path: chars_of("/activity/act24side/setTool"), handler: HandlerId::SetTool });
    t.push(RouteEntry { method: Method::Post, path: chars_of("/act25side/battleStart"), handler: HandlerId::QuestBattleStart });
    t.push(RouteEntry { method: Method::Post, path: chars_of("/act25side/battleFinish"), handler: HandlerId::QuestBattleFinish });
    t.push(RouteEntry { method: Method::Post, path: chars_of("/aprilFool/act5fun/battleStart"), handler: HandlerId::QuestBattleStart });
    t.push(RouteEntry { method: Method::Post, path: chars_of("/aprilFool/act5fun/battleFinish"), handler: HandlerId::Act5FunBattleFinish });
    t.push(RouteEntry { method: Method::Post, path: chars_of("/aprilFool/act4fun/battleStart"), handler: HandlerId::QuestBattleStart });
    t.push(RouteEntry { method: Method::Post, path: chars_of("/aprilFool/act4fun/battleFinish"), handler: HandlerId::Act4FunBattleFinish });
    t.push(RouteEntry { method: Method::Post, path: chars_of("/aprilFool/act4fun/liveSettle"), handler: HandlerId::Act4FunLiveSettle });
    t.push(RouteEntry { method: Method::Post, path: chars_of("/aprilFool/act3fun/battleStart"), handler: HandlerId::QuestBattleStart });
    t.push(RouteEntry { method: Method::Post, path: chars_of("/aprilFool/act3fun/battleFinish"), handler: HandlerId::QuestBattleFinish });
    t.push(RouteEntry { method: Method::Post, path: chars_of("/building/sync"), handler: HandlerId::BuildingSync });
    t.push(RouteEntry { method: Method::Post, path: chars_of("/building/getRecentVisitors"), handler: HandlerId::BuildingGetRecentVisitors });
    t.push(RouteEntry { method: Method::Post, path: chars_of("/building/getInfoShareVisitorsNum"), handler: HandlerId::BuildingGetInfoShareVisitorNum });
    t.push(RouteEntry { method: Method::Post, path: chars_of("/building/getAssistReport"), handler: HandlerId::BuildingGetAssistReport });
    t.push(RouteEntry { method: Method::Post, path: chars_of("/building/changeDiySolution"), handler: HandlerId::BuildingChangeDiySolution });
    t.push(RouteEntry { method: Method::Post, path: chars_of("/building/assignChar"), handler: HandlerId::BuildingAssignChar });
    t.push(RouteEntry { method: Method::Post, path: chars_of("/building/setBuildingAssist"), handler: HandlerId::BuildingSetBuildingAssist });
    t.push(RouteEntry { method: Method::Post, path: chars_of("/businessCard/changeNameCardComponent"), handler: HandlerId::ChangeNameComponent });
    t.push(RouteEntry { method: Method::Post, path: chars_of("/businessCard/changeNameCardSkin"), handler: HandlerId::ChangeCardSkin });
    t.push(RouteEntry { method: Method::Post, path: chars_of("/campaignV2/battleStart"), handler: HandlerId::Campaignv2BattleStart });
    t.push(RouteEntry { method: Method::Post, path: chars_of("/campaignV2/battleFinish"), handler: HandlerId::Campaignv2BattleFinish });
    t.push(RouteEntry { method: Method::Post, path: chars_of("/campaignV2/battleSweep"), handler: HandlerId::Campaignv2BattleSweep });
    t.push(RouteEntry { method: Method::Post, path: chars_of("/char/changeMarkStar"), handler: HandlerId::CharChangeMarkStar });
    t.push(RouteEntry { method: Method::Post, path: chars_of("/charBuild/addonStage/battleStart"), handler: HandlerId::QuestBattleStart });
    t.push(RouteEntry { method: Method::Post, path: chars_of("/charBuild/addonStage/battleFinish"), handler: HandlerId::QuestBattleFinish });
    t.push(RouteEntry { method: Method::Post, path: chars_of("/charBuild/addonStory/unlock"), handler: HandlerId::CharBuildAddonStoryUnlock });
    t.push(RouteEntry { method: Method::Post, path: chars_of("/charBuild/batchSetCharVoiceLan"), handler: HandlerId::CharBuildBatchSetCharVoiceLan });
    t.push(RouteEntry { method: Method::Post, path: chars_of("/charBuild/setCharVoiceLan"), handler: HandlerId::CharBuildSetCharVoiceLan });
    t.push(RouteEntry { method: Method::Post, path: chars_of("/charBuild/setDefaultSkill"), handler: HandlerId::CharBuildSetCharDefaultSkill });
    t.push(RouteEntry { method: Method::Post, path: chars_of("/charBuild/changeCharSkin"), handler: HandlerId::CharBuildChangeCharSkin });
    t.push(RouteEntry { method: Method::Post, path: chars_of("/charBuild/setEquipment"), handler: HandlerId::CharBuildSetCharEquipment });
    t.push(RouteEntry { method: Method::Post, path: chars_of("/charBuild/changeCharTemplate"), handler: HandlerId::CharBuildChangeCharTemplate });
    t.push(RouteEntry { method: Method::Get, path: chars_of("/config/prod/official/Android/version"), handler: HandlerId::ProdAndroidVersion });
    t.push(RouteEntry { method: Method::Get, path: chars_of("/config/prod/official/network_config"), handler: HandlerId::ProdNetworkConfig });
    t.push(RouteEntry { method: Method::Get, path: chars_of("/config/prod/official/remote_config"), handler: HandlerId::ProdRemoteConfig });
    t.push(RouteEntry { method: Method::Get, path: chars_of("/config/prod/official/refresh_config"), handler: HandlerId::ProdRefreshConfig });
    t.push(RouteEntry { method: Method::Get, path: chars_of("/config/prod/announce_meta/Android/announcement.meta.jsons"), handler: HandlerId::ProdAnnouncement });
    t.push(RouteEntry { method: Method::Get, path: chars_of("/config/prod/announce_meta/Android/preannouncement.meta.json"), handler: HandlerId::ProdPreAnnouncement });
    t.push(RouteEntry { method: Method::Post, path: chars_of("/crisisV2/getInfo"), handler: HandlerId::CrisisV2GetInfo });
    t.push(RouteEntry { method: Method::Post, path: chars_of("/crisisV2/battleStart"), handler: HandlerId::CrisisV2BattleStart });
    t.push(RouteEntry { method: Method::Post, path: chars_of("/crisisV2/battleFinish"), handler: HandlerId::CrisisV2BattleFinish });
    t.push(RouteEntry { method: Method::Post, path: chars_of("/crisisV2/getSnapshot"), handler: HandlerId::CrisisV2GetSnapshot });
    t.push(RouteEntry { method: Method::Post, path: chars_of("/deepSea/branch"), handler: HandlerId::DeepSeaBranch });
    t.push(RouteEntry { method: Method::Post, path: chars_of("/deepSea/event"), handler: HandlerId::DeepSeaEvent });
    t.push(RouteEntry { method: Method::Post, path: chars_of("/online/v1/ping"), handler: HandlerId::OnlineV1Ping });
    t.push(RouteEntry { method: Method::Post, path: chars_of("/online/v1/loginout"), handler: HandlerId::OnlineV1LoginOut });
    t.push(RouteEntry { method: Method::Post, path: chars_of("/quest/battleStart"), handler: HandlerId::QuestBattleStart });
    t.push(RouteEntry { method: Method::Post, path: chars_of("/quest/battleFinish"), handler: HandlerId::QuestBattleFinish });
    t.push(RouteEntry { method: Method::Post, path: chars_of("/quest/changeSquadName"), handler: HandlerId::SquadChangeName });
    t.push(RouteEntry { method: Method::Post, path: chars_of("/quest/squadFormation"), handler: HandlerId::SquadSetFormation });
    t.push(RouteEntry { method: Method::Post, path: chars_of("/quest/saveBattleReplay"), handler: HandlerId::QuestSaveBattleReplay });
    t.push(RouteEntry { method: Method::Post, path: chars_of("/quest/getBattleReplay"), handler: HandlerId::QuestGetBattleReplay });
    t.push(RouteEntry { method: Method::Post, path: chars_of("/retro/typeAct20side/competitionStart"), handler: HandlerId::Act20CompetitionStart });
    t.push(RouteEntry { method: Method::Post, path: chars_of("/retro/typeAct20side/competitionFinish"), handler: HandlerId::Act20CompetitionFinish });
    t.push(RouteEntry { method: Method::Post, path: chars_of("/shop/getSkinGoodList"), handler: HandlerId::PayGetUnconfirmedOrderIdList });
    t.push(RouteEntry { method: Method::Post, path: chars_of("/social/setAssistCharList"), handler: HandlerId::SocialSetAssistCharList });
    t.push(RouteEntry { method: Method::Post, path: chars_of("/social/setCardShowMedal"), handler: HandlerId::SocialSetCardMedal });
    t.push(RouteEntry { method: Method::Post, path: chars_of("/social/getSortListInfo"), handler: HandlerId::SocialGetSortListInfo });
    t.push(RouteEntry { method: Method::Post, path: chars_of("/social/searchPlayer"), handler: HandlerId::SocialSearchPlayer });
    t.push(RouteEntry { method: Method::Post, path: chars_of("/story/finishStory"), handler: HandlerId::StoryFinishStory });
    t.push(RouteEntry { method: Method::Post, path: chars_of("/storyreview/markStoryAcceKnown"), handler: HandlerId::MarkStoryAcceKnown });
    t.push(RouteEntry { method: Method::Post, path: chars_of("/storyreview/readStory"), handler: HandlerId::ReadStory });
    t.push(RouteEntry { method: Method::Get, path: chars_of("/u8/user/auth/v1/agreement_version"), handler: HandlerId::AgreementVersion });
    t.push(RouteEntry { method: Method::Post, path: chars_of("/u8/user/v1/getToken"), handler: HandlerId::UserV1GetToken });
    t.push(RouteEntry { method: Method::Post, path: chars_of("/u8/pay/getAllProductList"), handler: HandlerId::PayGetAllProdList });
    t.push(RouteEntry { method: Method::Post, path: chars_of("/user/auth"), handler: HandlerId::UserAuth });
    t.push(RouteEntry { method: Method::Post, path: chars_of("/user/auth/v1/token_by_phone_password"), handler: HandlerId::AuthV1TokenByPhonePassword });
    t.push(RouteEntry { method: Method::Get, path: chars_of("/user/agreement"), handler: HandlerId::UserAgreement });
    t.push(RouteEntry { method: Method::Get, path: chars_of("/user/checkIn"), handler: HandlerId::UserCheckIn });
    t.push(RouteEntry { method: Method::Post, path: chars_of("/user/changeAvatar"), handler: HandlerId::UserChangeAvatar });
    t.push(RouteEntry { method: Method::Post, path: chars_of("/user/changeSecretary"), handler: HandlerId::UserChangeSecretary });
    t.push(RouteEntry { method: Method::Post, path: chars_of("/user/info/v1/need_cloud_auth"), handler: HandlerId::UserNeedCloudAuth });
    t.push(RouteEntry { method: Method::Get, path: chars_of("/user/info/v1/basic"), handler: HandlerId::InfoV1Basic });
    t.push(RouteEntry { method: Method::Post, path: chars_of("/user/login"), handler: HandlerId::UserLogin });
    t.push(RouteEntry { method: Method::Post, path: chars_of("/user/oauth2/v1/grant"), handler: HandlerId::UserOauth2V1Grant });
    t.push(RouteEntry { method: Method::Post, path: chars_of("/user/oauth2/v2/grant"), handler: HandlerId::UserOauth2V2Grant });
    t.push(RouteEntry { method: Method::Post, path: chars_of("/user/yostar_createlogin"), handler: HandlerId::UserYostarCreateLogin });
    t.push(RouteEntry { method: Method::Get, path: chars_of("/general/v1/server_time"), handler: HandlerId::GeneralV1ServerTime });
    t.push(RouteEntry { method: Method::Post, path: chars_of("/pay/getUnconfirmedOrderIdList"), handler: HandlerId::PayGetUnconfirmedOrderIdList });
    t.push(RouteEntry { method: Method::Post, path: chars_of("/background/setBackground"), handler: HandlerId::BackgroundSetBg });
    t.push(RouteEntry { method: Method::Post, path: chars_of("/homeTheme/change"), handler: HandlerId::HomeThemeChange });
    t.push(RouteEntry { method: Method::Post, path: chars_of("/charm/setSquad"), handler: HandlerId::CharmSetSquad });
    t.push(RouteEntry { method: Method::Post, path: chars_of("/car/confirmBattleCar"), handler: HandlerId::ConfirmBattleCar });
    t.push(RouteEntry { method: Method::Post, path: chars_of("/templateTrap/setTrapSquad"), handler: HandlerId::SetTrapSquad });
    t.push(RouteEntry { method: Method::Get, path: chars_of("/assetbundle/official/Android/assets/:hash/:name"), handler: HandlerId::GetFile });
    proof {
        assert(table_model(t@) =~= routes_spec());
    }
    t
}

} // verus!
