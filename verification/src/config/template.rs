//! The configuration file that a new installation gets.
use vstd::prelude::*;
use vstd::string::*;

verus! {

/// The text of a new configuration file.
pub const DEFAULT_FILE_CONFIG: &'static str = r#"schema_version = "v1"

[telemetry.logs]
in_memory_buffer_bytes = 1048576
spool_dir = "state/spool/logs"

[telemetry.logs.output]
kind = "file"

# 采集输出（file sink）路径：不写则按“它是数据”处理，跟数据根目录走 ——
#   系统级部署（配置在 /etc/wist-agentd）→ /var/lib/wist-agentd/data/wist-records.ndjson
#   开发机 / --user 安装　　→ <配置目录>/data/wist-records.ndjson
# 需要指定就显式声明（相对路径相对本配置文件所在目录，绝对路径原样使用）：
# [telemetry.logs.output.file]
# path = "/var/lib/wist-agentd/data/wist-records.ndjson"

[discovery]
# 默认保留 host + network + endpoint + process discovery，便于本地 metrics / action target 建模。
# container 属于更高基数发现，只有启用对应场景时再显式打开。
host_enabled = true
network_enabled = true
endpoint_enabled = true
process_enabled = true
container_enabled = false

# 可选：
# [agent]
# # 为空时会自动生成实例名；如需显式指定可取消注释。
# # instance_name = "monitoring-host-01"
#
# 可选：
# [control_plane]
# # 管理端端点（非秘密，可由 CM 下发）。注册是一次性动作：成功后 daemon 把正式 agent_id
# # 与凭据写入 state，无需把 token 写进本文件。
# enabled = true
# endpoint = "https://10.0.1.1"
# tls_mode = "https"
# trust_bundle = ""
#
# 注册 token（一次性）不写配置，装的时候传一次就行（不落盘）：
#   sudo wist-agentd service install --system --enrollment-token <token>
# 已装好但还没注册，也可以单独补注册：
#   sudo wist-agentd enroll --token <token>            # 或： echo <token> | sudo wist-agentd enroll --token-stdin
#
# 可选：
# [paths]
# # 数据/日志目录默认值随**配置目录**而定（只填充未声明的键，显式声明优先）：
# #   配置在 /etc/wist-agentd（系统级部署）→ 数据（run/state/spool + 采集输出 data/）落 /var/lib/wist-agentd，
# #                                         日志落 /var/log/wist-agentd
# #   其它位置（开发机 / --user 安装）→ 数据与日志就放在配置目录下
# # 解析规则：相对路径相对本配置文件所在目录，绝对路径原样使用。
# # root_dir = "/var/lib/wist-agentd"   # run/state/spool 的基准
# # run_dir = "run"
# # state_dir = "state"
# # log_dir = "/var/log/wist-agentd"
#
# 采集任务与运行设定的稳定度不同：可以把 [[telemetry.logs.file_inputs]] 清单移到独立文件，
# 在 [telemetry.logs] 内用 file_inputs_file 引用（路径相对本配置文件，与内联二选一）：
# file_inputs_file = "tasks/apps.toml"
#   tasks/apps.toml 内容示例：
#   [[file_inputs]]
#   input_id = "monitoring-app"
#   path = "/var/log/monitoring/app.log"
#   startup_position = "tail"
#   multiline_mode = "none"
#
# 示例：把某个监控系统日志文件送到本地 warp-parse record 输出文件。
# 取消注释后，把 path 改成你的真实日志路径。
#
# [[telemetry.logs.file_inputs]]
# input_id = "monitoring-app"
# path = "/var/log/monitoring/app.log"
# startup_position = "head"
# multiline_mode = "none"
#
# macOS P0 采集清单（示例，按需取消注释）：只支持“可追加的单个文本文件”。
# 需要 root/Full Disk Access 才能读的路径，agent 用户态读取失败会被跳过/进本地缓冲重试，
# 生产请用 root helper 采集；新增文件（.ips）与统一日志/audit 需 Phase 2 source。
# 注：install.log / launchd.log 体量大，默认 tail（只收新增行）；需要首次回放历史时改 head。
#
# [[telemetry.logs.file_inputs]]
# input_id = "macos_install_log"
# path = "/var/log/install.log"
# startup_position = "tail"
# multiline_mode = "none"
#
# [[telemetry.logs.file_inputs]]
# input_id = "macos_launchd"
# path = "/var/log/com.apple.xpc.launchd/launchd.log"
# startup_position = "tail"
# multiline_mode = "none"
#
# [[telemetry.logs.file_inputs]]
# input_id = "macos_shutdown_monitor"
# path = "/var/log/shutdown_monitor.log"
# startup_position = "tail"
# multiline_mode = "none"
#
# [[telemetry.logs.file_inputs]]
# input_id = "macos_fsck"
# path = "/var/log/fsck_apfs.log"
# startup_position = "head"
# multiline_mode = "none"
#
# [[telemetry.logs.file_inputs]]
# input_id = "macos_wifi"
# path = "/var/log/wifi.log"
# startup_position = "tail"
# multiline_mode = "none"
#
# 示例：把日志通过 TCP 发到本机数据面的 tcp_src。
# [telemetry.logs.output]
# kind = "tcp"
#
# [telemetry.logs.output.tcp]
# addr = "127.0.0.1"
# port = 9000
# framing = "line"
"#;

/// The text of a new configuration file.
pub fn default_file_config_text() -> (text: String)
    ensures
        text@ == DEFAULT_FILE_CONFIG@,
{
    DEFAULT_FILE_CONFIG.to_string()
}

} // verus!
