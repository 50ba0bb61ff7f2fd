//! What the user is told about capture and injection.

use vstd::prelude::*;
use vstd::string::*;

use crate::layout::{effective_port, is_local_role, normalize_quic_port, LayoutState, Platform};
use crate::targets::{build_input_targets, input_targets, target_views};
use crate::text::{append_decimal, decimal, same_text};

verus! {

#[derive(Debug, PartialEq, Eq)]
pub struct NativeStageStatus {
    pub state: String,
    pub detail: String,
}

pub struct StatusView {
    pub state: Seq<char>,
    pub detail: Seq<char>,
}

impl View for NativeStageStatus {
    type V = StatusView;

    open spec fn view(&self) -> StatusView {
        StatusView { state: self.state@, detail: self.detail@ }
    }
}

fn status(state: &str, detail: &str) -> (status: NativeStageStatus)
    ensures
        status@ == (StatusView { state: state@, detail: detail@ }),
{
    NativeStageStatus { state: state.to_owned(), detail: detail.to_owned() }
}

pub fn stopped_capture_status() -> (result: NativeStageStatus)
    ensures
        result@ == (StatusView { state: "stubbed"@, detail: "Input sharing is stopped."@ }),
{
    status("stubbed", "Input sharing is stopped.")
}

pub fn stopped_inject_status() -> (result: NativeStageStatus)
    ensures
        result@ == (StatusView { state: "stubbed"@, detail: "Input injection is stopped."@ }),
{
    status("stubbed", "Input injection is stopped.")
}

pub open spec fn receive_only_view() -> StatusView {
    StatusView {
        state: "idle"@,
        detail: "当前是仅接收模式：会接收远端输入，但不会捕获本机鼠标和键盘。"@,
    }
}

pub fn receive_only_status() -> (result: NativeStageStatus)
    ensures
        result@ == receive_only_view(),
{
    status("idle", "当前是仅接收模式：会接收远端输入，但不会捕获本机鼠标和键盘。")
}

pub open spec fn unsupported_view() -> StatusView {
    StatusView {
        state: "stubbed"@,
        detail: "Global input capture is not implemented on this platform."@,
    }
}

pub fn unsupported_capture_status() -> (result: NativeStageStatus)
    ensures
        result@ == unsupported_view(),
{
    status("stubbed", "Global input capture is not implemented on this platform.")
}

/// Whether some remote device satisfies the second condition.
pub open spec fn has_remote(layout: LayoutState, online_only: bool) -> bool {
    exists|i: int|
        0 <= i < layout.devices@.len() && !is_local_role(#[trigger] layout.devices@[i]) && (
        online_only ==> layout.devices@[i].online)
}

fn any_remote(layout: &LayoutState, online_only: bool) -> (any: bool)
    ensures
        any == has_remote(*layout, online_only),
{
    let mut index: usize = 0;
    while index < layout.devices.len()
        invariant
            index <= layout.devices@.len(),
            forall|i: int|
                0 <= i < index ==> is_local_role(#[trigger] layout.devices@[i]) || (online_only
                    && !layout.devices@[i].online),
        decreases layout.devices@.len() - index,
    {
        let device = &layout.devices[index];
        if !same_text(device.role.as_str(), "local") && (!online_only || device.online) {
            assert(!is_local_role(layout.devices@[index as int]));
            return true;
        }
        index += 1;
    }
    false
}

/// Why there is nothing to cross to: no remote device, none online, or none
/// that touches a local screen.
pub open spec fn no_target_view(layout: LayoutState) -> StatusView {
    StatusView {
        state: "idle"@,
        detail: if !has_remote(layout, false) {
            "控制模式已开启，但布局里还没有远端设备。先让对方电脑运行 mykvm，再在 LAN devices 里 Scan 并 Add。"@
        } else if !has_remote(layout, true) {
            "控制模式已开启，但远端设备都被标记为离线。把要控制的设备切回 online 后再启动运行时。"@
        } else {
            "控制模式已开启，且已有在线远端设备，但屏幕还没有和本机贴边。拖动远端显示器贴住本机边缘后才会生成切屏目标。"@
        },
    }
}

pub fn no_target_status(layout: &LayoutState) -> (result: NativeStageStatus)
    ensures
        result@ == no_target_view(*layout),
{
    if !any_remote(layout, false) {
        status(
            "idle",
            "控制模式已开启，但布局里还没有远端设备。先让对方电脑运行 mykvm，再在 LAN devices 里 Scan 并 Add。",
        )
    } else if !any_remote(layout, true) {
        status(
            "idle",
            "控制模式已开启，但远端设备都被标记为离线。把要控制的设备切回 online 后再启动运行时。",
        )
    } else {
        status(
            "idle",
            "控制模式已开启，且已有在线远端设备，但屏幕还没有和本机贴边。拖动远端显示器贴住本机边缘后才会生成切屏目标。",
        )
    }
}

/// A stage as far as this library words it; the Linux backend words its own.
#[derive(Debug, PartialEq, Eq)]
pub enum StageReport {
    Status(NativeStageStatus),
    LinuxCapture { target_count: usize },
    LinuxReceive { port: u16 },
}

pub enum ReportView {
    Status(StatusView),
    LinuxCapture { target_count: nat },
    LinuxReceive { port: u16 },
}

impl View for StageReport {
    type V = ReportView;

    open spec fn view(&self) -> ReportView {
        match *self {
            StageReport::Status(status) => ReportView::Status(status@),
            StageReport::LinuxCapture { target_count } => ReportView::LinuxCapture {
                target_count: target_count as nat,
            },
            StageReport::LinuxReceive { port } => ReportView::LinuxReceive { port },
        }
    }
}

/// The capture stage once `count` ways off this machine are known.
pub open spec fn ready_capture(platform: Platform, count: nat) -> ReportView {
    match platform {
        Platform::MacOs | Platform::Windows => ReportView::Status(
            StatusView {
                state: "ready"@,
                detail: "控制端已就绪，"@ + decimal(count)
                    + " 条远端贴边可用于鼠标和键盘切换。"@,
            },
        ),
        Platform::Linux => ReportView::LinuxCapture { target_count: count },
        Platform::Other => ReportView::Status(unsupported_view()),
    }
}

/// The capture stage of a layout.
pub open spec fn capture_report(
    layout: LayoutState,
    native_layout: LayoutState,
    platform: Platform,
) -> ReportView {
    let count = input_targets(layout, native_layout).len();
    if layout.input_mode@ == "receive"@ {
        ReportView::Status(receive_only_view())
    } else if count == 0 {
        ReportView::Status(no_target_view(layout))
    } else {
        ready_capture(platform, count)
    }
}

/// What macOS says of injection.
#[derive(Debug, Clone, Copy, PartialEq, Eq, Structural)]
pub struct MacPermissions {
    pub accessibility_trusted: bool,
    pub secure_input_enabled: bool,
}

/// The receive stage of a layout. On macOS a missing permission, and then
/// secure keyboard entry, is reported first.
pub open spec fn receive_report(
    layout: LayoutState,
    platform: Platform,
    permissions: MacPermissions,
) -> ReportView {
    let port = effective_port(layout.transport_port, layout.quic_port);
    if platform == Platform::MacOs && !permissions.accessibility_trusted {
        ReportView::Status(
            StatusView {
                state: "error"@,
                detail: "macOS 需要给 MyKVM 辅助功能权限才能注入远端点击和键盘。请到 系统设置 > 隐私与安全性 > 辅助功能 启用 MyKVM，然后完全退出并重新打开应用。"@,
            },
        )
    } else if platform == Platform::MacOs && permissions.secure_input_enabled {
        ReportView::Status(
            StatusView {
                state: "error"@,
                detail: "检测到 macOS 安全键盘输入(Secure Keyboard Entry)已开启，系统会拦截所有注入的键盘事件（鼠标点击不受影响）。请退出正在占用安全输入的应用——常见来源：终端里勾选的“安全键盘输入”、聚焦中的密码输入框、部分密码管理器；必要时注销重新登录，然后重试。"@,
            },
        )
    } else if platform == Platform::Linux {
        ReportView::LinuxReceive { port }
    } else {
        ReportView::Status(
            StatusView {
                state: "ready"@,
                detail: "Receiving shared input on QUIC datagrams at UDP "@ + decimal(port as nat)
                    + "."@,
            },
        )
    }
}

pub fn input_receive_status(
    layout: &LayoutState,
    platform: Platform,
    permissions: MacPermissions,
) -> (report: StageReport)
    ensures
        report@ == receive_report(*layout, platform, permissions),
{
    let port: u16 = normalize_quic_port(layout.transport_port, layout.quic_port);
    if platform == Platform::MacOs && !permissions.accessibility_trusted {
        return StageReport::Status(
            status(
                "error",
                "macOS 需要给 MyKVM 辅助功能权限才能注入远端点击和键盘。请到 系统设置 > 隐私与安全性 > 辅助功能 启用 MyKVM，然后完全退出并重新打开应用。",
            ),
        );
    }
    if platform == Platform::MacOs && permissions.secure_input_enabled {
        return StageReport::Status(
            status(
                "error",
                "检测到 macOS 安全键盘输入(Secure Keyboard Entry)已开启，系统会拦截所有注入的键盘事件（鼠标点击不受影响）。请退出正在占用安全输入的应用——常见来源：终端里勾选的“安全键盘输入”、聚焦中的密码输入框、部分密码管理器；必要时注销重新登录，然后重试。",
            ),
        );
    }
    if platform == Platform::Linux {
        return StageReport::LinuxReceive { port };
    }
    let mut detail = "Receiving shared input on QUIC datagrams at UDP ".to_owned();
    append_decimal(&mut detail, port as u64);
    detail.append(".");
    StageReport::Status(NativeStageStatus { state: "ready".to_owned(), detail })
}

/// The capture and the receive stage of a layout.
pub fn input_runtime_status(
    layout: &LayoutState,
    native_layout: &LayoutState,
    platform: Platform,
    permissions: MacPermissions,
) -> (reports: (StageReport, StageReport))
    ensures
        reports.0@ == capture_report(*layout, *native_layout, platform),
        reports.1@ == receive_report(*layout, platform, permissions),
{
    let targets = build_input_targets(layout, native_layout);
    let count: usize = targets.len();
    assert(count == input_targets(*layout, *native_layout).len()) by {
        assert(target_views(targets@).len() == targets@.len());
    }
    let capture = if same_text(layout.input_mode.as_str(), "receive") {
        StageReport::Status(receive_only_status())
    } else if count == 0 {
        StageReport::Status(no_target_status(layout))
    } else {
        match platform {
            Platform::MacOs | Platform::Windows => {
                let mut detail = "控制端已就绪，".to_owned();
                append_decimal(&mut detail, count as u64);
                detail.append(" 条远端贴边可用于鼠标和键盘切换。");
                StageReport::Status(NativeStageStatus { state: "ready".to_owned(), detail })
            },
            Platform::Linux => StageReport::LinuxCapture { target_count: count },
            Platform::Other => StageReport::Status(unsupported_capture_status()),
        }
    };
    (capture, input_receive_status(layout, platform, permissions))
}

/// Receive mode is reported before everything else. A machine without a way off
/// says what is missing: a remote device, one that is online, or one that
/// touches. Otherwise the stage is ready and tells how many ways there are.
pub proof fn law_capture_says_what_is_missing(
    layout: LayoutState,
    native_layout: LayoutState,
    platform: Platform,
    remote: int,
)
    ensures
        ({
            let report = capture_report(layout, native_layout, platform);
            let count = input_targets(layout, native_layout).len();
            let receives = layout.input_mode@ == "receive"@;
            &&& receives ==> report == ReportView::Status(receive_only_view())
            &&& !receives && count > 0 && platform == Platform::Linux ==> report
                == ReportView::LinuxCapture { target_count: count }
            &&& !receives && count > 0 && (platform == Platform::MacOs || platform
                == Platform::Windows) ==> (report matches ReportView::Status(status) && status.state
                == "ready"@ && status.detail == "控制端已就绪，"@ + decimal(count)
                + " 条远端贴边可用于鼠标和键盘切换。"@)
            &&& !receives && count > 0 && platform == Platform::Other ==> report
                == ReportView::Status(unsupported_view())
            &&& !receives && count == 0 ==> report == ReportView::Status(no_target_view(layout))
        }),
        no_target_view(layout).state == "idle"@,
        (forall|i: int| 0 <= i < layout.devices@.len() ==> #[trigger] layout.devices@[i].role@
            == "local"@) ==> no_target_view(layout).detail
            == "控制模式已开启，但布局里还没有远端设备。先让对方电脑运行 mykvm，再在 LAN devices 里 Scan 并 Add。"@,
        0 <= remote < layout.devices@.len() && layout.devices@[remote].role@ != "local"@ && (
        forall|i: int| 0 <= i < layout.devices@.len() && #[trigger] layout.devices@[i].role@
            != "local"@ ==> !layout.devices@[i].online) ==> no_target_view(layout).detail
            == "控制模式已开启，但远端设备都被标记为离线。把要控制的设备切回 online 后再启动运行时。"@,
        0 <= remote < layout.devices@.len() && layout.devices@[remote].role@ != "local"@
            && layout.devices@[remote].online ==> no_target_view(layout).detail
            == "控制模式已开启，且已有在线远端设备，但屏幕还没有和本机贴边。拖动远端显示器贴住本机边缘后才会生成切屏目标。"@,
{
    if 0 <= remote < layout.devices@.len() {
        assert(is_local_role(layout.devices@[remote]) == (layout.devices@[remote].role@
            == "local"@));
    }
}

/// On macOS a missing permission comes first, secure keyboard entry next; both
/// are errors there and nowhere else. All else listens at the port that peers
/// are told.
pub proof fn law_receiving_says_what_is_in_the_way(
    layout: LayoutState,
    platform: Platform,
    permissions: MacPermissions,
)
    ensures
        ({
            let report = receive_report(layout, platform, permissions);
            let blocked = platform == Platform::MacOs && (!permissions.accessibility_trusted
                || permissions.secure_input_enabled);
            let port = if layout.quic_port == 0 {
                layout.transport_port
            } else {
                layout.quic_port
            };
            &&& (report matches ReportView::Status(status) && status.state == "error"@) <==> blocked
            &&& platform == Platform::Linux ==> report == ReportView::LinuxReceive { port }
            &&& !blocked && platform != Platform::Linux ==> (report matches ReportView::Status(
                status,
            ) && status.state == "ready"@ && status.detail
                == "Receiving shared input on QUIC datagrams at UDP "@ + decimal(port as nat)
                + "."@)
            &&& platform == Platform::MacOs ==> receive_report(
                layout,
                platform,
                MacPermissions { accessibility_trusted: false, secure_input_enabled: false },
            ) == receive_report(
                layout,
                platform,
                MacPermissions { accessibility_trusted: false, secure_input_enabled: true },
            )
            &&& platform == Platform::MacOs ==> receive_report(
                layout,
                platform,
                MacPermissions { accessibility_trusted: false, secure_input_enabled: true },
            ) != receive_report(
                layout,
                platform,
                MacPermissions { accessibility_trusted: true, secure_input_enabled: true },
            )
        }),
{
    reveal_strlit("error");
    reveal_strlit("ready");
    reveal_strlit("macOS 需要给 MyKVM 辅助功能权限才能注入远端点击和键盘。请到 系统设置 > 隐私与安全性 > 辅助功能 启用 MyKVM，然后完全退出并重新打开应用。");
    reveal_strlit("检测到 macOS 安全键盘输入(Secure Keyboard Entry)已开启，系统会拦截所有注入的键盘事件（鼠标点击不受影响）。请退出正在占用安全输入的应用——常见来源：终端里勾选的“安全键盘输入”、聚焦中的密码输入框、部分密码管理器；必要时注销重新登录，然后重试。");
    assert("error"@[0] != "ready"@[0]);
    assert("macOS 需要给 MyKVM 辅助功能权限才能注入远端点击和键盘。请到 系统设置 > 隐私与安全性 > 辅助功能 启用 MyKVM，然后完全退出并重新打开应用。"@[0]
        != "检测到 macOS 安全键盘输入(Secure Keyboard Entry)已开启，系统会拦截所有注入的键盘事件（鼠标点击不受影响）。请退出正在占用安全输入的应用——常见来源：终端里勾选的“安全键盘输入”、聚焦中的密码输入框、部分密码管理器；必要时注销重新登录，然后重试。"@[0]);
}

} // verus!
