//! The permissions of the platform, what they depend on, and which one each page needs.

use vstd::prelude::*;

use crate::text::same_text;

verus! {

#[derive(Clone, Copy, Debug, PartialEq, Eq, Structural)]
pub enum PermissionResourceType {
    Page,
    Action,
}

impl PermissionResourceType {
    pub open spec fn name(self) -> Seq<char> {
        match self {
            PermissionResourceType::Page => "page"@,
            PermissionResourceType::Action => "action"@,
        }
    }

    pub fn as_str(self) -> (name: &'static str)
        ensures
            name@ == self.name(),
    {
        match self {
            PermissionResourceType::Page => "page",
            PermissionResourceType::Action => "action",
        }
    }
}

#[derive(Clone, Copy, Debug)]
pub struct PermissionDef {
    pub key: &'static str,
    pub name: &'static str,
    pub description: &'static str,
    pub resource_type: PermissionResourceType,
    pub resource_key: &'static str,
    pub module: &'static str,
}

/// A permission as a store holds it.
#[derive(Clone, Debug)]
pub struct PermissionView {
    pub id: i64,
    pub permission_key: String,
    pub permission_name: String,
    pub description: String,
    pub resource_type: String,
    pub module: String,
}

pub const DASHBOARD_VIEW: &'static str = "dashboard.view";

pub const APPS_VIEW: &'static str = "apps.view";

pub const APPS_STATUS: &'static str = "apps.status";

pub const SERVICES_VIEW: &'static str = "services.view";

pub const SERVICES_LOGS: &'static str = "services.logs";

pub const TASKS_RETRY: &'static str = "tasks.retry";

pub const NODES_VIEW: &'static str = "nodes.view";

pub const NODES_MANAGE: &'static str = "nodes.manage";

pub const NODES_INSTALL: &'static str = "nodes.install";

pub const NODE_CREDENTIALS_VIEW: &'static str = "node_credentials.view";

pub const NODE_CREDENTIALS_MANAGE: &'static str = "node_credentials.manage";

pub const TASKS_VIEW: &'static str = "tasks.view";

pub const TEMPLATES_VIEW: &'static str = "templates.view";

pub const ARTIFACTS_VIEW: &'static str = "artifacts.view";

pub const ARTIFACTS_UPLOAD: &'static str = "artifacts.upload";

pub const RBAC_ACCOUNTS_VIEW: &'static str = "rbac.accounts.view";

pub const RBAC_ROLES_VIEW: &'static str = "rbac.roles.view";

pub const RBAC_PERMISSIONS_VIEW: &'static str = "rbac.permissions.view";

pub const RBAC_SESSIONS_VIEW: &'static str = "rbac.sessions.view";

pub const API_TOKENS_VIEW: &'static str = "api_tokens.view";

pub const API_TOKENS_MANAGE: &'static str = "api_tokens.manage";

pub const SETTINGS_VIEW: &'static str = "settings.view";

pub const SETTINGS_UPDATE: &'static str = "settings.update";

pub const AUDIT_VIEW: &'static str = "audit.view";

pub const PROFILE_VIEW: &'static str = "profile.view";

pub const APPS_UPDATE: &'static str = "apps.update";

pub const SERVICES_DEPLOY: &'static str = "services.deploy";

/// A permission as a mathematical value.
pub struct Permission {
    pub key: Seq<char>,
    pub name: Seq<char>,
    pub description: Seq<char>,
    pub resource_type: PermissionResourceType,
    pub resource_key: Seq<char>,
    pub module: Seq<char>,
}

impl View for PermissionDef {
    type V = Permission;

    open spec fn view(&self) -> Permission {
        Permission {
            key: self.key@,
            name: self.name@,
            description: self.description@,
            resource_type: self.resource_type,
            resource_key: self.resource_key@,
            module: self.module@,
        }
    }
}

pub open spec fn permission_views(permissions: Seq<PermissionDef>) -> Seq<Permission> {
    permissions.map_values(|permission: PermissionDef| permission@)
}

pub open spec fn page(
    key: Seq<char>,
    name: Seq<char>,
    description: Seq<char>,
    resource_key: Seq<char>,
    module: Seq<char>,
) -> Permission {
    Permission {
        key,
        name,
        description,
        resource_type: PermissionResourceType::Page,
        resource_key,
        module,
    }
}

pub open spec fn action(
    key: Seq<char>,
    name: Seq<char>,
    description: Seq<char>,
    module: Seq<char>,
) -> Permission {
    Permission {
        key,
        name,
        description,
        resource_type: PermissionResourceType::Action,
        resource_key: key,
        module,
    }
}

/// Every permission of this version of the platform.
pub open spec fn registry() -> Seq<Permission> {
    seq![
        page(
            DASHBOARD_VIEW@,
            "查看总览"@,
            "访问部署控制台总览页。"@,
            "dashboard"@,
            "总览"@,
        ),
        page(
            APPS_VIEW@,
            "查看应用"@,
            "查看应用列表和详情。"@,
            "apps"@,
            "应用"@,
        ),
        action(
            "apps.create"@,
            "创建应用"@,
            "创建新的部署应用。"@,
            "应用"@,
        ),
        action(
            "apps.update"@,
            "编辑应用"@,
            "编辑应用基础信息和配置。"@,
            "应用"@,
        ),
        action(
            APPS_STATUS@,
            "启停应用"@,
            "停用或重新启用部署应用。"@,
            "应用"@,
        ),
        page(
            SERVICES_VIEW@,
            "查看服务"@,
            "查看服务列表、版本和运行状态。"@,
            "services"@,
            "服务"@,
        ),
        action(
            "services.deploy"@,
            "部署服务"@,
            "发起服务部署任务。"@,
            "服务"@,
        ),
        action(
            SERVICES_LOGS@,
            "查看服务日志"@,
            "查看 Compose 或 systemd 服务最近日志。"@,
            "服务"@,
        ),
        action(
            "services.rollback"@,
            "回滚服务"@,
            "回滚服务到历史版本。"@,
            "服务"@,
        ),
        page(
            NODES_VIEW@,
            "查看节点"@,
            "查看部署目标机器。"@,
            "nodes"@,
            "节点"@,
        ),
        action(
            NODES_MANAGE@,
            "管理节点"@,
            "新增、编辑和探测部署目标机器。"@,
            "节点"@,
        ),
        action(
            NODES_INSTALL@,
            "安装节点组件"@,
            "在节点上安装 Docker、Compose、Caddy 或 Nginx 等组件。"@,
            "节点"@,
        ),
        page(
            NODE_CREDENTIALS_VIEW@,
            "查看节点凭据"@,
            "查看用于 SSH 节点免密登录的公钥、指纹和绑定关系。"@,
            "node_credentials"@,
            "节点"@,
        ),
        action(
            NODE_CREDENTIALS_MANAGE@,
            "管理节点凭据"@,
            "生成或录入 SSH 密钥，并维护节点凭据状态。"@,
            "节点"@,
        ),
        page(
            TASKS_VIEW@,
            "查看部署任务"@,
            "查看部署任务队列和历史记录。"@,
            "tasks"@,
            "部署任务"@,
        ),
        action(
            "tasks.cancel"@,
            "取消任务"@,
            "取消尚未开始执行的排队任务。"@,
            "部署任务"@,
        ),
        action(
            TASKS_RETRY@,
            "重试任务"@,
            "从失败的部署任务重新发起一次任务。"@,
            "部署任务"@,
        ),
        page(
            TEMPLATES_VIEW@,
            "查看模板"@,
            "查看 Docker Compose 和二进制部署模板。"@,
            "templates"@,
            "模板"@,
        ),
        page(
            ARTIFACTS_VIEW@,
            "查看制品"@,
            "查看构建制品和版本。"@,
            "artifacts"@,
            "制品"@,
        ),
        action(
            ARTIFACTS_UPLOAD@,
            "上传制品"@,
            "上传二进制制品并登记新版本。"@,
            "制品"@,
        ),
        page(
            RBAC_ACCOUNTS_VIEW@,
            "查看账号"@,
            "查看后台账号列表。"@,
            "rbac.accounts"@,
            "权限"@,
        ),
        action(
            "rbac.accounts.manage"@,
            "管理账号"@,
            "创建、禁用、重置密码和分配角色。"@,
            "权限"@,
        ),
        page(
            RBAC_ROLES_VIEW@,
            "查看角色"@,
            "查看角色和权限配置。"@,
            "rbac.roles"@,
            "权限"@,
        ),
        page(
            RBAC_PERMISSIONS_VIEW@,
            "查看权限"@,
            "查看平台版本维护的权限注册表和权限说明。"@,
            "rbac.permissions"@,
            "权限"@,
        ),
        action(
            "rbac.roles.manage"@,
            "管理角色"@,
            "创建角色并分配权限。"@,
            "权限"@,
        ),
        page(
            PROFILE_VIEW@,
            "查看个人中心"@,
            "查看当前登录账号信息和修改密码。"@,
            "profile"@,
            "个人"@,
        ),
        action(
            "profile.password.change"@,
            "修改个人密码"@,
            "修改当前登录账号密码。"@,
            "个人"@,
        ),
        page(
            SETTINGS_VIEW@,
            "查看设置"@,
            "查看平台设置。"@,
            "settings"@,
            "设置"@,
        ),
        action(
            SETTINGS_UPDATE@,
            "修改平台设置"@,
            "修改部署默认值和平台可持久化配置。"@,
            "设置"@,
        ),
        page(
            AUDIT_VIEW@,
            "查看审计日志"@,
            "查看账号和部署相关审计日志。"@,
            "audit"@,
            "审计"@,
        ),
        page(
            RBAC_SESSIONS_VIEW@,
            "查看会话"@,
            "查看后台登录会话。"@,
            "rbac.sessions"@,
            "权限"@,
        ),
        action(
            "rbac.sessions.manage"@,
            "管理会话"@,
            "强制下线后台登录会话。"@,
            "权限"@,
        ),
        page(
            API_TOKENS_VIEW@,
            "View API Tokens"@,
            "View API tokens used by developers and AI callers."@,
            "api_tokens"@,
            "Open API"@,
        ),
        action(
            API_TOKENS_MANAGE@,
            "Manage API Tokens"@,
            "Create and revoke API tokens for open interfaces."@,
            "Open API"@,
        ),
    ]
}

fn page_def(
    key: &'static str,
    name: &'static str,
    description: &'static str,
    resource_key: &'static str,
    module: &'static str,
) -> (permission: PermissionDef)
    ensures
        permission@ == page(key@, name@, description@, resource_key@, module@),
{
    PermissionDef {
        key,
        name,
        description,
        resource_type: PermissionResourceType::Page,
        resource_key,
        module,
    }
}

fn action_def(
    key: &'static str,
    name: &'static str,
    description: &'static str,
    module: &'static str,
) -> (permission: PermissionDef)
    ensures
        permission@ == action(key@, name@, description@, module@),
{
    PermissionDef {
        key,
        name,
        description,
        resource_type: PermissionResourceType::Action,
        resource_key: key,
        module,
    }
}

/// The permissions of this version of the platform.
pub fn all_permissions() -> (permissions: Vec<PermissionDef>)
    ensures
        permission_views(permissions@) == registry(),
{
    let permissions = vec![
        page_def(
            DASHBOARD_VIEW,
            "查看总览",
            "访问部署控制台总览页。",
            "dashboard",
            "总览",
        ),
        page_def(
            APPS_VIEW,
            "查看应用",
            "查看应用列表和详情。",
            "apps",
            "应用",
        ),
        action_def(
            "apps.create",
            "创建应用",
            "创建新的部署应用。",
            "应用",
        ),
        action_def(
            "apps.update",
            "编辑应用",
            "编辑应用基础信息和配置。",
            "应用",
        ),
        action_def(
            APPS_STATUS,
            "启停应用",
            "停用或重新启用部署应用。",
            "应用",
        ),
        page_def(
            SERVICES_VIEW,
            "查看服务",
            "查看服务列表、版本和运行状态。",
            "services",
            "服务",
        ),
        action_def(
            "services.deploy",
            "部署服务",
            "发起服务部署任务。",
            "服务",
        ),
        action_def(
            SERVICES_LOGS,
            "查看服务日志",
            "查看 Compose 或 systemd 服务最近日志。",
            "服务",
        ),
        action_def(
            "services.rollback",
            "回滚服务",
            "回滚服务到历史版本。",
            "服务",
        ),
        page_def(
            NODES_VIEW,
            "查看节点",
            "查看部署目标机器。",
            "nodes",
            "节点",
        ),
        action_def(
            NODES_MANAGE,
            "管理节点",
            "新增、编辑和探测部署目标机器。",
            "节点",
        ),
        action_def(
            NODES_INSTALL,
            "安装节点组件",
            "在节点上安装 Docker、Compose、Caddy 或 Nginx 等组件。",
            "节点",
        ),
        page_def(
            NODE_CREDENTIALS_VIEW,
            "查看节点凭据",
            "查看用于 SSH 节点免密登录的公钥、指纹和绑定关系。",
            "node_credentials",
            "节点",
        ),
        action_def(
            NODE_CREDENTIALS_MANAGE,
            "管理节点凭据",
            "生成或录入 SSH 密钥，并维护节点凭据状态。",
            "节点",
        ),
        page_def(
            TASKS_VIEW,
            "查看部署任务",
            "查看部署任务队列和历史记录。",
            "tasks",
            "部署任务",
        ),
        action_def(
            "tasks.cancel",
            "取消任务",
            "取消尚未开始执行的排队任务。",
            "部署任务",
        ),
        action_def(
            TASKS_RETRY,
            "重试任务",
            "从失败的部署任务重新发起一次任务。",
            "部署任务",
        ),
        page_def(
            TEMPLATES_VIEW,
            "查看模板",
            "查看 Docker Compose 和二进制部署模板。",
            "templates",
            "模板",
        ),
        page_def(
            ARTIFACTS_VIEW,
            "查看制品",
            "查看构建制品和版本。",
            "artifacts",
            "制品",
        ),
        action_def(
            ARTIFACTS_UPLOAD,
            "上传制品",
            "上传二进制制品并登记新版本。",
            "制品",
        ),
        page_def(
            RBAC_ACCOUNTS_VIEW,
            "查看账号",
            "查看后台账号列表。",
            "rbac.accounts",
            "权限",
        ),
        action_def(
            "rbac.accounts.manage",
            "管理账号",
            "创建、禁用、重置密码和分配角色。",
            "权限",
        ),
        page_def(
            RBAC_ROLES_VIEW,
            "查看角色",
            "查看角色和权限配置。",
            "rbac.roles",
            "权限",
        ),
        page_def(
            RBAC_PERMISSIONS_VIEW,
            "查看权限",
            "查看平台版本维护的权限注册表和权限说明。",
            "rbac.permissions",
            "权限",
        ),
        action_def(
            "rbac.roles.manage",
            "管理角色",
            "创建角色并分配权限。",
            "权限",
        ),
        page_def(
            PROFILE_VIEW,
            "查看个人中心",
            "查看当前登录账号信息和修改密码。",
            "profile",
            "个人",
        ),
        action_def(
            "profile.password.change",
            "修改个人密码",
            "修改当前登录账号密码。",
            "个人",
        ),
        page_def(
            SETTINGS_VIEW,
            "查看设置",
            "查看平台设置。",
            "settings",
            "设置",
        ),
        action_def(
            SETTINGS_UPDATE,
            "修改平台设置",
            "修改部署默认值和平台可持久化配置。",
            "设置",
        ),
        page_def(
            AUDIT_VIEW,
            "查看审计日志",
            "查看账号和部署相关审计日志。",
            "audit",
            "审计",
        ),
        page_def(
            RBAC_SESSIONS_VIEW,
            "查看会话",
            "查看后台登录会话。",
            "rbac.sessions",
            "权限",
        ),
        action_def(
            "rbac.sessions.manage",
            "管理会话",
            "强制下线后台登录会话。",
            "权限",
        ),
        page_def(
            API_TOKENS_VIEW,
            "View API Tokens",
            "View API tokens used by developers and AI callers.",
            "api_tokens",
            "Open API",
        ),
        action_def(
            API_TOKENS_MANAGE,
            "Manage API Tokens",
            "Create and revoke API tokens for open interfaces.",
            "Open API",
        ),
    ];
    assert(permission_views(permissions@) =~= registry());
    permissions
}

/// The permissions that a permission is of no use without.
pub open spec fn dependencies(key: Seq<char>) -> Seq<Seq<char>> {
    if key == "apps.create"@ || key == "apps.update"@ || key == APPS_STATUS@ {
        seq![APPS_VIEW@]
    } else if key == "services.deploy"@ || key == "services.rollback"@ {
        seq![APPS_VIEW@, SERVICES_VIEW@, TASKS_VIEW@]
    } else if key == SERVICES_LOGS@ {
        seq![SERVICES_VIEW@]
    } else if key == NODES_MANAGE@ {
        seq![NODES_VIEW@]
    } else if key == NODES_INSTALL@ {
        seq![NODES_VIEW@, TASKS_VIEW@]
    } else if key == NODE_CREDENTIALS_MANAGE@ {
        seq![NODE_CREDENTIALS_VIEW@]
    } else if key == "tasks.cancel"@ || key == TASKS_RETRY@ {
        seq![TASKS_VIEW@]
    } else if key == ARTIFACTS_UPLOAD@ {
        seq![ARTIFACTS_VIEW@]
    } else if key == "rbac.accounts.manage"@ {
        seq![RBAC_ACCOUNTS_VIEW@]
    } else if key == "rbac.roles.manage"@ {
        seq![RBAC_ROLES_VIEW@, RBAC_PERMISSIONS_VIEW@]
    } else if key == "rbac.sessions.manage"@ {
        seq![RBAC_SESSIONS_VIEW@]
    } else if key == API_TOKENS_MANAGE@ {
        seq![API_TOKENS_VIEW@]
    } else if key == "profile.password.change"@ {
        seq![PROFILE_VIEW@]
    } else if key == SETTINGS_UPDATE@ {
        seq![SETTINGS_VIEW@]
    } else {
        Seq::empty()
    }
}

/// The views of keys.
pub open spec fn key_views(keys: Seq<&'static str>) -> Seq<Seq<char>> {
    keys.map_values(|key: &'static str| key@)
}

pub fn permission_dependencies(permission_key: &str) -> (keys: Vec<&'static str>)
    ensures
        key_views(keys@) == dependencies(permission_key@),
{
    let key = permission_key;
    let keys: Vec<&'static str> = if same_text(key, "apps.create") || same_text(key, "apps.update") || same_text(key, APPS_STATUS) {
        vec![APPS_VIEW]
    } else if same_text(key, "services.deploy") || same_text(key, "services.rollback") {
        vec![APPS_VIEW, SERVICES_VIEW, TASKS_VIEW]
    } else if same_text(key, SERVICES_LOGS) {
        vec![SERVICES_VIEW]
    } else if same_text(key, NODES_MANAGE) {
        vec![NODES_VIEW]
    } else if same_text(key, NODES_INSTALL) {
        vec![NODES_VIEW, TASKS_VIEW]
    } else if same_text(key, NODE_CREDENTIALS_MANAGE) {
        vec![NODE_CREDENTIALS_VIEW]
    } else if same_text(key, "tasks.cancel") || same_text(key, TASKS_RETRY) {
        vec![TASKS_VIEW]
    } else if same_text(key, ARTIFACTS_UPLOAD) {
        vec![ARTIFACTS_VIEW]
    } else if same_text(key, "rbac.accounts.manage") {
        vec![RBAC_ACCOUNTS_VIEW]
    } else if same_text(key, "rbac.roles.manage") {
        vec![RBAC_ROLES_VIEW, RBAC_PERMISSIONS_VIEW]
    } else if same_text(key, "rbac.sessions.manage") {
        vec![RBAC_SESSIONS_VIEW]
    } else if same_text(key, API_TOKENS_MANAGE) {
        vec![API_TOKENS_VIEW]
    } else if same_text(key, "profile.password.change") {
        vec![PROFILE_VIEW]
    } else if same_text(key, SETTINGS_UPDATE) {
        vec![SETTINGS_VIEW]
    } else {
        Vec::new()
    };
    assert(key_views(keys@) =~= dependencies(permission_key@));
    keys
}

/// The permission that a page needs.
pub open spec fn page_permission(path: Seq<char>) -> Option<Seq<char>> {
    if path == "/"@ {
        Some(DASHBOARD_VIEW@)
    } else if path == "/apps"@ {
        Some(APPS_VIEW@)
    } else if path == "/services"@ {
        Some(SERVICES_VIEW@)
    } else if path == "/nodes"@ {
        Some(NODES_VIEW@)
    } else if path == "/node-credentials"@ {
        Some(NODE_CREDENTIALS_VIEW@)
    } else if path == "/tasks"@ {
        Some(TASKS_VIEW@)
    } else if path == "/templates"@ {
        Some(TEMPLATES_VIEW@)
    } else if path == "/artifacts"@ {
        Some(ARTIFACTS_VIEW@)
    } else if path == "/admin/accounts"@ {
        Some(RBAC_ACCOUNTS_VIEW@)
    } else if path == "/admin/roles"@ {
        Some(RBAC_ROLES_VIEW@)
    } else if path == "/admin/permissions"@ {
        Some(RBAC_PERMISSIONS_VIEW@)
    } else if path == "/admin/sessions"@ {
        Some(RBAC_SESSIONS_VIEW@)
    } else if path == "/admin/api-tokens"@ {
        Some(API_TOKENS_VIEW@)
    } else if path == "/profile"@ {
        Some(PROFILE_VIEW@)
    } else if path == "/settings"@ {
        Some(SETTINGS_VIEW@)
    } else if path == "/audit"@ {
        Some(AUDIT_VIEW@)
    } else {
        None
    }
}

pub fn nav_permission(path: &str) -> (permission: Option<&'static str>)
    ensures
        crate::urls::option_str(permission) == page_permission(path@),
{
    if same_text(path, "/") {
        Some(DASHBOARD_VIEW)
    } else if same_text(path, "/apps") {
        Some(APPS_VIEW)
    } else if same_text(path, "/services") {
        Some(SERVICES_VIEW)
    } else if same_text(path, "/nodes") {
        Some(NODES_VIEW)
    } else if same_text(path, "/node-credentials") {
        Some(NODE_CREDENTIALS_VIEW)
    } else if same_text(path, "/tasks") {
        Some(TASKS_VIEW)
    } else if same_text(path, "/templates") {
        Some(TEMPLATES_VIEW)
    } else if same_text(path, "/artifacts") {
        Some(ARTIFACTS_VIEW)
    } else if same_text(path, "/admin/accounts") {
        Some(RBAC_ACCOUNTS_VIEW)
    } else if same_text(path, "/admin/roles") {
        Some(RBAC_ROLES_VIEW)
    } else if same_text(path, "/admin/permissions") {
        Some(RBAC_PERMISSIONS_VIEW)
    } else if same_text(path, "/admin/sessions") {
        Some(RBAC_SESSIONS_VIEW)
    } else if same_text(path, "/admin/api-tokens") {
        Some(API_TOKENS_VIEW)
    } else if same_text(path, "/profile") {
        Some(PROFILE_VIEW)
    } else if same_text(path, "/settings") {
        Some(SETTINGS_VIEW)
    } else if same_text(path, "/audit") {
        Some(AUDIT_VIEW)
    } else {
        None
    }
}

// ---------------------------------------------------------------------------
// Laws
// ---------------------------------------------------------------------------

/// The key is that of a registered permission.
pub open spec fn is_registered(key: Seq<char>) -> bool {
    exists|i: int| 0 <= i < registry().len() && (#[trigger] registry()[i]).key == key
}

/// Whatever a permission depends on is registered.
pub proof fn dependencies_are_registered(key: Seq<char>, i: int)
    requires
        0 <= i < dependencies(key).len(),
    ensures
        is_registered(dependencies(key)[i]),
{
    assert(registry()[1].key == APPS_VIEW@);
    assert(registry()[5].key == SERVICES_VIEW@);
    assert(registry()[14].key == TASKS_VIEW@);
    assert(registry()[9].key == NODES_VIEW@);
    assert(registry()[12].key == NODE_CREDENTIALS_VIEW@);
    assert(registry()[18].key == ARTIFACTS_VIEW@);
    assert(registry()[20].key == RBAC_ACCOUNTS_VIEW@);
    assert(registry()[22].key == RBAC_ROLES_VIEW@);
    assert(registry()[23].key == RBAC_PERMISSIONS_VIEW@);
    assert(registry()[30].key == RBAC_SESSIONS_VIEW@);
    assert(registry()[32].key == API_TOKENS_VIEW@);
    assert(registry()[25].key == PROFILE_VIEW@);
    assert(registry()[27].key == SETTINGS_VIEW@);
}

/// Whatever a page needs is registered.
pub proof fn page_permissions_are_registered(path: Seq<char>)
    requires
        page_permission(path) is Some,
    ensures
        is_registered(page_permission(path)->0),
{
    assert(registry()[0].key == DASHBOARD_VIEW@);
    assert(registry()[1].key == APPS_VIEW@);
    assert(registry()[5].key == SERVICES_VIEW@);
    assert(registry()[9].key == NODES_VIEW@);
    assert(registry()[12].key == NODE_CREDENTIALS_VIEW@);
    assert(registry()[14].key == TASKS_VIEW@);
    assert(registry()[17].key == TEMPLATES_VIEW@);
    assert(registry()[18].key == ARTIFACTS_VIEW@);
    assert(registry()[20].key == RBAC_ACCOUNTS_VIEW@);
    assert(registry()[22].key == RBAC_ROLES_VIEW@);
    assert(registry()[23].key == RBAC_PERMISSIONS_VIEW@);
    assert(registry()[30].key == RBAC_SESSIONS_VIEW@);
    assert(registry()[32].key == API_TOKENS_VIEW@);
    assert(registry()[25].key == PROFILE_VIEW@);
    assert(registry()[27].key == SETTINGS_VIEW@);
    assert(registry()[29].key == AUDIT_VIEW@);
}

/// What a permission depends on depends on nothing further.
pub proof fn dependencies_are_one_step(key: Seq<char>, i: int)
    requires
        0 <= i < dependencies(key).len(),
    ensures
        dependencies(dependencies(key)[i]) == Seq::<Seq<char>>::empty(),
{
    reveal_strlit("apps.create");
    reveal_strlit("apps.update");
    reveal_strlit("apps.status");
    reveal_strlit("services.deploy");
    reveal_strlit("services.rollback");
    reveal_strlit("services.logs");
    reveal_strlit("nodes.manage");
    reveal_strlit("nodes.install");
    reveal_strlit("node_credentials.manage");
    reveal_strlit("tasks.cancel");
    reveal_strlit("tasks.retry");
    reveal_strlit("artifacts.upload");
    reveal_strlit("rbac.accounts.manage");
    reveal_strlit("rbac.roles.manage");
    reveal_strlit("rbac.sessions.manage");
    reveal_strlit("api_tokens.manage");
    reveal_strlit("profile.password.change");
    reveal_strlit("settings.update");
    reveal_strlit("apps.view");
    reveal_strlit("services.view");
    reveal_strlit("tasks.view");
    reveal_strlit("nodes.view");
    reveal_strlit("node_credentials.view");
    reveal_strlit("artifacts.view");
    reveal_strlit("rbac.accounts.view");
    reveal_strlit("rbac.roles.view");
    reveal_strlit("rbac.permissions.view");
    reveal_strlit("rbac.sessions.view");
    reveal_strlit("api_tokens.view");
    reveal_strlit("profile.view");
    reveal_strlit("settings.view");
    assert("apps.create"@.last() != 'w');
    assert("apps.update"@.last() != 'w');
    assert("apps.status"@.last() != 'w');
    assert("services.deploy"@.last() != 'w');
    assert("services.rollback"@.last() != 'w');
    assert("services.logs"@.last() != 'w');
    assert("nodes.manage"@.last() != 'w');
    assert("nodes.install"@.last() != 'w');
    assert("node_credentials.manage"@.last() != 'w');
    assert("tasks.cancel"@.last() != 'w');
    assert("tasks.retry"@.last() != 'w');
    assert("artifacts.upload"@.last() != 'w');
    assert("rbac.accounts.manage"@.last() != 'w');
    assert("rbac.roles.manage"@.last() != 'w');
    assert("rbac.sessions.manage"@.last() != 'w');
    assert("api_tokens.manage"@.last() != 'w');
    assert("profile.password.change"@.last() != 'w');
    assert("settings.update"@.last() != 'w');
    assert(APPS_VIEW@.last() == 'w');
    assert(SERVICES_VIEW@.last() == 'w');
    assert(TASKS_VIEW@.last() == 'w');
    assert(NODES_VIEW@.last() == 'w');
    assert(NODE_CREDENTIALS_VIEW@.last() == 'w');
    assert(ARTIFACTS_VIEW@.last() == 'w');
    assert(RBAC_ACCOUNTS_VIEW@.last() == 'w');
    assert(RBAC_ROLES_VIEW@.last() == 'w');
    assert(RBAC_PERMISSIONS_VIEW@.last() == 'w');
    assert(RBAC_SESSIONS_VIEW@.last() == 'w');
    assert(API_TOKENS_VIEW@.last() == 'w');
    assert(PROFILE_VIEW@.last() == 'w');
    assert(SETTINGS_VIEW@.last() == 'w');
}

/// Pages are looked at: the keys of their permissions, and no others, end with `.view`.
pub proof fn pages_are_viewed(i: int)
    requires
        0 <= i < registry().len(),
    ensures
        registry()[i].resource_type == PermissionResourceType::Page <==> {
            let key = registry()[i].key;
            let n = key.len() as int;
            &&& n > 5
            &&& key[n - 5] == '.'
            &&& key[n - 4] == 'v'
            &&& key[n - 3] == 'i'
            &&& key[n - 2] == 'e'
            &&& key[n - 1] == 'w'
        },
{
    reveal_strlit("dashboard.view");
    reveal_strlit("apps.view");
    reveal_strlit("apps.create");
    reveal_strlit("apps.update");
    reveal_strlit("apps.status");
    reveal_strlit("services.view");
    reveal_strlit("services.deploy");
    reveal_strlit("services.logs");
    reveal_strlit("services.rollback");
    reveal_strlit("nodes.view");
    reveal_strlit("nodes.manage");
    reveal_strlit("nodes.install");
    reveal_strlit("node_credentials.view");
    reveal_strlit("node_credentials.manage");
    reveal_strlit("tasks.view");
    reveal_strlit("tasks.cancel");
    reveal_strlit("tasks.retry");
    reveal_strlit("templates.view");
    reveal_strlit("artifacts.view");
    reveal_strlit("artifacts.upload");
    reveal_strlit("rbac.accounts.view");
    reveal_strlit("rbac.accounts.manage");
    reveal_strlit("rbac.roles.view");
    reveal_strlit("rbac.permissions.view");
    reveal_strlit("rbac.roles.manage");
    reveal_strlit("profile.view");
    reveal_strlit("profile.password.change");
    reveal_strlit("settings.view");
    reveal_strlit("settings.update");
    reveal_strlit("audit.view");
    reveal_strlit("rbac.sessions.view");
    reveal_strlit("rbac.sessions.manage");
    reveal_strlit("api_tokens.view");
    reveal_strlit("api_tokens.manage");
}

/// Whoever may act may look: an action needs a page of its own module.
pub proof fn actions_need_a_page_of_their_module(i: int)
    requires
        0 <= i < registry().len(),
        registry()[i].resource_type == PermissionResourceType::Action,
    ensures
        exists|j: int|
            0 <= j < registry().len() && (#[trigger] registry()[j]).resource_type
                == PermissionResourceType::Page && registry()[j].module == registry()[i].module
                && dependencies(registry()[i].key).contains(registry()[j].key),
{
    actions_need_the_pages_they_show();
    let key = registry()[i].key;
    if i == 2 {
        assert(dependencies(key)[0] == registry()[1].key);
    }
    if i == 3 {
        assert(dependencies(key)[0] == registry()[1].key);
    }
    if i == 4 {
        assert(dependencies(key)[0] == registry()[1].key);
    }
    if i == 6 {
        assert(dependencies(key)[1] == registry()[5].key);
    }
    if i == 7 {
        assert(dependencies(key)[0] == registry()[5].key);
    }
    if i == 8 {
        assert(dependencies(key)[1] == registry()[5].key);
    }
    if i == 10 {
        assert(dependencies(key)[0] == registry()[9].key);
    }
    if i == 11 {
        assert(dependencies(key)[0] == registry()[9].key);
    }
    if i == 13 {
        assert(dependencies(key)[0] == registry()[12].key);
    }
    if i == 15 {
        assert(dependencies(key)[0] == registry()[14].key);
    }
    if i == 16 {
        assert(dependencies(key)[0] == registry()[14].key);
    }
    if i == 19 {
        assert(dependencies(key)[0] == registry()[18].key);
    }
    if i == 21 {
        assert(dependencies(key)[0] == registry()[20].key);
    }
    if i == 24 {
        assert(dependencies(key)[0] == registry()[22].key);
    }
    if i == 26 {
        assert(dependencies(key)[0] == registry()[25].key);
    }
    if i == 28 {
        assert(dependencies(key)[0] == registry()[27].key);
    }
    if i == 31 {
        assert(dependencies(key)[0] == registry()[30].key);
    }
    if i == 33 {
        assert(dependencies(key)[0] == registry()[32].key);
    }
}

/// Which pages an action needs besides: whoever deploys or takes back sees applications, services
/// and tasks, whoever installs sees the tasks, and whoever manages roles sees the permissions.
pub proof fn actions_need_the_pages_they_show()
    ensures
        dependencies("apps.create"@) == seq!["apps.view"@],
        dependencies("apps.update"@) == seq!["apps.view"@],
        dependencies("apps.status"@) == seq!["apps.view"@],
        dependencies("services.deploy"@) == seq!["apps.view"@, "services.view"@, "tasks.view"@],
        dependencies("services.rollback"@) == seq!["apps.view"@, "services.view"@, "tasks.view"@],
        dependencies("services.logs"@) == seq!["services.view"@],
        dependencies("nodes.manage"@) == seq!["nodes.view"@],
        dependencies("nodes.install"@) == seq!["nodes.view"@, "tasks.view"@],
        dependencies("node_credentials.manage"@) == seq!["node_credentials.view"@],
        dependencies("tasks.cancel"@) == seq!["tasks.view"@],
        dependencies("tasks.retry"@) == seq!["tasks.view"@],
        dependencies("artifacts.upload"@) == seq!["artifacts.view"@],
        dependencies("rbac.accounts.manage"@) == seq!["rbac.accounts.view"@],
        dependencies("rbac.roles.manage"@) == seq!["rbac.roles.view"@, "rbac.permissions.view"@],
        dependencies("rbac.sessions.manage"@) == seq!["rbac.sessions.view"@],
        dependencies("api_tokens.manage"@) == seq!["api_tokens.view"@],
        dependencies("profile.password.change"@) == seq!["profile.view"@],
        dependencies("settings.update"@) == seq!["settings.view"@],
{
    reveal_strlit("apps.create");
    reveal_strlit("apps.update");
    reveal_strlit("apps.status");
    reveal_strlit("services.deploy");
    reveal_strlit("services.rollback");
    reveal_strlit("services.logs");
    reveal_strlit("nodes.manage");
    reveal_strlit("nodes.install");
    reveal_strlit("node_credentials.manage");
    reveal_strlit("tasks.cancel");
    reveal_strlit("tasks.retry");
    reveal_strlit("artifacts.upload");
    reveal_strlit("rbac.accounts.manage");
    reveal_strlit("rbac.roles.manage");
    reveal_strlit("rbac.sessions.manage");
    reveal_strlit("api_tokens.manage");
    reveal_strlit("profile.password.change");
    reveal_strlit("settings.update");
    assert("apps.create"@.len() == 11);
    assert("apps.update"@.len() == 11);
    assert("apps.status"@.len() == 11);
    assert("services.deploy"@.len() == 15);
    assert("services.rollback"@.len() == 17);
    assert("services.logs"@.len() == 13);
    assert("nodes.manage"@.len() == 12);
    assert("nodes.install"@.len() == 13);
    assert("node_credentials.manage"@.len() == 23);
    assert("tasks.cancel"@.len() == 12);
    assert("tasks.retry"@.len() == 11);
    assert("artifacts.upload"@.len() == 16);
    assert("rbac.accounts.manage"@.len() == 20);
    assert("rbac.roles.manage"@.len() == 17);
    assert("rbac.sessions.manage"@.len() == 20);
    assert("api_tokens.manage"@.len() == 17);
    assert("profile.password.change"@.len() == 23);
    assert("settings.update"@.len() == 15);
    assert("apps.create"@[5] == 'c');
    assert("apps.update"@[5] == 'u');
    assert("apps.status"@[5] == 's');
    assert("apps.create"@[0] == 'a');
    assert("tasks.retry"@[0] == 't');
    assert("apps.update"@[0] == 'a');
    assert("apps.status"@[0] == 'a');
    assert("services.deploy"@[2] == 'r');
    assert("settings.update"@[2] == 't');
    assert("services.rollback"@[0] == 's');
    assert("rbac.roles.manage"@[0] == 'r');
    assert("api_tokens.manage"@[0] == 'a');
    assert("services.logs"@[0] == 's');
    assert("nodes.install"@[0] == 'n');
    assert("nodes.manage"@[0] == 'n');
    assert("tasks.cancel"@[0] == 't');
    assert("node_credentials.manage"@[0] == 'n');
    assert("profile.password.change"@[0] == 'p');
    assert("rbac.accounts.manage"@[5] == 'a');
    assert("rbac.sessions.manage"@[5] == 's');
}

/// Every page is opened by a permission of its own, and by one that is meant for pages.
pub proof fn pages_have_their_own_permissions(path: Seq<char>, other: Seq<char>)
    requires
        page_permission(path) is Some,
    ensures
        page_permission(other) == page_permission(path) ==> other == path,
        exists|i: int|
            0 <= i < registry().len() && (#[trigger] registry()[i]).key == page_permission(path)->0
                && registry()[i].resource_type == PermissionResourceType::Page,
{
    reveal_strlit("dashboard.view");
    reveal_strlit("apps.view");
    reveal_strlit("services.view");
    reveal_strlit("nodes.view");
    reveal_strlit("node_credentials.view");
    reveal_strlit("tasks.view");
    reveal_strlit("templates.view");
    reveal_strlit("artifacts.view");
    reveal_strlit("rbac.accounts.view");
    reveal_strlit("rbac.roles.view");
    reveal_strlit("rbac.permissions.view");
    reveal_strlit("rbac.sessions.view");
    reveal_strlit("api_tokens.view");
    reveal_strlit("profile.view");
    reveal_strlit("settings.view");
    reveal_strlit("audit.view");
    assert("dashboard.view"@.len() == 14);
    assert("apps.view"@.len() == 9);
    assert("services.view"@.len() == 13);
    assert("nodes.view"@.len() == 10);
    assert("node_credentials.view"@.len() == 21);
    assert("tasks.view"@.len() == 10);
    assert("templates.view"@.len() == 14);
    assert("artifacts.view"@.len() == 14);
    assert("rbac.accounts.view"@.len() == 18);
    assert("rbac.roles.view"@.len() == 15);
    assert("rbac.permissions.view"@.len() == 21);
    assert("rbac.sessions.view"@.len() == 18);
    assert("api_tokens.view"@.len() == 15);
    assert("profile.view"@.len() == 12);
    assert("settings.view"@.len() == 13);
    assert("audit.view"@.len() == 10);
    assert("dashboard.view"@[0] == 'd');
    assert("templates.view"@[0] == 't');
    assert("artifacts.view"@[0] == 'a');
    assert("services.view"@[2] == 'r');
    assert("settings.view"@[2] == 't');
    assert("nodes.view"@[0] == 'n');
    assert("tasks.view"@[0] == 't');
    assert("audit.view"@[0] == 'a');
    assert("node_credentials.view"@[0] == 'n');
    assert("rbac.permissions.view"@[0] == 'r');
    assert("rbac.accounts.view"@[5] == 'a');
    assert("rbac.sessions.view"@[5] == 's');
    assert("rbac.roles.view"@[0] == 'r');
    assert("api_tokens.view"@[0] == 'a');
    assert(registry()[0].key == "dashboard.view"@);
    assert(registry()[1].key == "apps.view"@);
    assert(registry()[5].key == "services.view"@);
    assert(registry()[9].key == "nodes.view"@);
    assert(registry()[12].key == "node_credentials.view"@);
    assert(registry()[14].key == "tasks.view"@);
    assert(registry()[17].key == "templates.view"@);
    assert(registry()[18].key == "artifacts.view"@);
    assert(registry()[20].key == "rbac.accounts.view"@);
    assert(registry()[22].key == "rbac.roles.view"@);
    assert(registry()[23].key == "rbac.permissions.view"@);
    assert(registry()[30].key == "rbac.sessions.view"@);
    assert(registry()[32].key == "api_tokens.view"@);
    assert(registry()[25].key == "profile.view"@);
    assert(registry()[27].key == "settings.view"@);
    assert(registry()[29].key == "audit.view"@);
}

/// Each page shows what its permission is about.
pub proof fn pages_are_opened_by_what_they_show()
    ensures
        page_permission("/"@) == Some("dashboard.view"@),
        page_permission("/apps"@) == Some("apps.view"@),
        page_permission("/services"@) == Some("services.view"@),
        page_permission("/nodes"@) == Some("nodes.view"@),
        page_permission("/node-credentials"@) == Some("node_credentials.view"@),
        page_permission("/tasks"@) == Some("tasks.view"@),
        page_permission("/templates"@) == Some("templates.view"@),
        page_permission("/artifacts"@) == Some("artifacts.view"@),
        page_permission("/admin/accounts"@) == Some("rbac.accounts.view"@),
        page_permission("/admin/roles"@) == Some("rbac.roles.view"@),
        page_permission("/admin/permissions"@) == Some("rbac.permissions.view"@),
        page_permission("/admin/sessions"@) == Some("rbac.sessions.view"@),
        page_permission("/admin/api-tokens"@) == Some("api_tokens.view"@),
        page_permission("/profile"@) == Some("profile.view"@),
        page_permission("/settings"@) == Some("settings.view"@),
        page_permission("/audit"@) == Some("audit.view"@),
{
    reveal_strlit("/");
    reveal_strlit("/apps");
    reveal_strlit("/services");
    reveal_strlit("/nodes");
    reveal_strlit("/node-credentials");
    reveal_strlit("/tasks");
    reveal_strlit("/templates");
    reveal_strlit("/artifacts");
    reveal_strlit("/admin/accounts");
    reveal_strlit("/admin/roles");
    reveal_strlit("/admin/permissions");
    reveal_strlit("/admin/sessions");
    reveal_strlit("/admin/api-tokens");
    reveal_strlit("/profile");
    reveal_strlit("/settings");
    reveal_strlit("/audit");
    assert("/"@.len() == 1);
    assert("/apps"@.len() == 5);
    assert("/services"@.len() == 9);
    assert("/nodes"@.len() == 6);
    assert("/node-credentials"@.len() == 17);
    assert("/tasks"@.len() == 6);
    assert("/templates"@.len() == 10);
    assert("/artifacts"@.len() == 10);
    assert("/admin/accounts"@.len() == 15);
    assert("/admin/roles"@.len() == 12);
    assert("/admin/permissions"@.len() == 18);
    assert("/admin/sessions"@.len() == 15);
    assert("/admin/api-tokens"@.len() == 17);
    assert("/profile"@.len() == 8);
    assert("/settings"@.len() == 9);
    assert("/audit"@.len() == 6);
    assert("/services"@[3] == 'r');
    assert("/settings"@[3] == 't');
    assert("/nodes"@[1] == 'n');
    assert("/tasks"@[1] == 't');
    assert("/audit"@[1] == 'a');
    assert("/node-credentials"@[1] == 'n');
    assert("/admin/api-tokens"@[1] == 'a');
    assert("/templates"@[1] == 't');
    assert("/artifacts"@[1] == 'a');
    assert("/admin/accounts"@[7] == 'a');
    assert("/admin/sessions"@[7] == 's');
}

/// To look at a page nothing else is needed.
pub proof fn viewing_needs_nothing(key: Seq<char>)
    requires
        key.len() > 5,
        key.skip(key.len() - 5) == seq!['.', 'v', 'i', 'e', 'w'],
    ensures
        dependencies(key) == Seq::<Seq<char>>::empty(),
{
    assert(key.skip(key.len() - 5)[4] == 'w');
    reveal_strlit("apps.create");
    assert("apps.create"@.last() != 'w');
    reveal_strlit("apps.update");
    assert("apps.update"@.last() != 'w');
    reveal_strlit("apps.status");
    assert("apps.status"@.last() != 'w');
    reveal_strlit("services.deploy");
    assert("services.deploy"@.last() != 'w');
    reveal_strlit("services.rollback");
    assert("services.rollback"@.last() != 'w');
    reveal_strlit("services.logs");
    assert("services.logs"@.last() != 'w');
    reveal_strlit("nodes.manage");
    assert("nodes.manage"@.last() != 'w');
    reveal_strlit("nodes.install");
    assert("nodes.install"@.last() != 'w');
    reveal_strlit("node_credentials.manage");
    assert("node_credentials.manage"@.last() != 'w');
    reveal_strlit("tasks.cancel");
    assert("tasks.cancel"@.last() != 'w');
    reveal_strlit("tasks.retry");
    assert("tasks.retry"@.last() != 'w');
    reveal_strlit("artifacts.upload");
    assert("artifacts.upload"@.last() != 'w');
    reveal_strlit("profile.password.change");
    assert("profile.password.change"@.last() != 'w');
    reveal_strlit("rbac.accounts.manage");
    assert("rbac.accounts.manage"@.last() != 'w');
    reveal_strlit("rbac.roles.manage");
    assert("rbac.roles.manage"@.last() != 'w');
    reveal_strlit("rbac.sessions.manage");
    assert("rbac.sessions.manage"@.last() != 'w');
    reveal_strlit("api_tokens.manage");
    assert("api_tokens.manage"@.last() != 'w');
    reveal_strlit("settings.update");
    assert("settings.update"@.last() != 'w');
}

/// Permissions are for pages and for actions.
pub proof fn permissions_are_for_pages_and_actions()
    ensures
        PermissionResourceType::Page.name() == seq!['p', 'a', 'g', 'e'],
        PermissionResourceType::Action.name() == seq!['a', 'c', 't', 'i', 'o', 'n'],
{
    reveal_strlit("page");
    reveal_strlit("action");
    assert("page"@ =~= seq!['p', 'a', 'g', 'e']);
    assert("action"@ =~= seq!['a', 'c', 't', 'i', 'o', 'n']);
}

} // verus!
