//! Mapping of the library's stable, language-neutral error identifiers to
//! user-facing Chinese text, with optional remediation suggestions.
//!
//! The table is scanned in a fixed order, more specific identifiers first,
//! and the first identifier that occurs inside the given error wins.

use vstd::prelude::*;
use vstd::string::StrSliceExecFns;
use vstd::string::StringExecFns;
use crate::strutil::{
    self,
    spec_contains,
    spec_starts_with,
    trim_spec,
    replace_all_spec,
};

verus! {

/// The table of `(identifier, Chinese message)` pairs, in the order they
/// are tried.
pub open spec fn rules() -> Seq<(Seq<char>, Seq<char>)> {
    seq![
        ("Agent CLI not found"@, "未找到 Agent CLI。请确保已安装或允许自动下载 Node.js。"@),
        ("No system Node.js installation found"@, "未找到系统 Node.js 安装。系统将尝试下载内置版本。"@),
        ("Node.js runtime not available"@, "Node.js 运行时不可用。请安装 Node.js 或允许自动下载。"@),
        ("Failed to download Node.js"@, "下载 Node.js 失败。请检查网络连接并重试。"@),
        ("Failed to ensure Node.js runtime"@, "无法确保 Node.js 运行时可用。请手动安装 Node.js。"@),
        ("Failed to find acli binary"@, "未找到 Agent CLI 可执行文件。请确保 Agent CLI 已正确安装。"@),
        ("Failed to spawn Agent CLI"@, "启动 Agent CLI 失败。请检查安装并重试。"@),
        ("Failed to execute acli command"@, "执行 acli 命令失败。请检查 Agent CLI 是否正常工作。"@),
        ("Failed to add MCP server"@, "添加 MCP 服务器失败。请检查配置并重试。"@),
        ("Failed to list MCP servers"@, "列出 MCP 服务器失败。请检查配置文件。"@),
        ("Failed to start MCP server"@, "启动 MCP 服务器失败。请确保服务器已正确安装。"@),
        ("Failed to read file"@, "读取文件失败。请检查文件权限。"@),
        ("Failed to write file"@, "写入文件失败。请检查目录权限。"@),
        ("Failed to create directory"@, "创建目录失败。请检查权限设置。"@),
        ("Failed to get home directory"@, "获取用户主目录失败。"@),
        ("Failed to open database"@, "打开数据库失败。请检查应用数据目录。"@),
        ("Failed to update row"@, "更新数据失败。请重试操作。"@),
        ("Failed to insert row"@, "插入数据失败。请检查数据格式。"@),
        ("Failed to kill process"@, "终止进程失败。进程可能已经结束。"@),
        ("Failed to register process"@, "注册进程失败。请重启应用。"@),
        ("Failed to fetch"@, "网络请求失败。请检查网络连接。"@),
        ("Failed to download"@, "下载失败。请检查网络连接并重试。"@),
    ]
}

/// The first rule whose identifier occurs in `e`, scanning from rule `i`
/// on; `-1` when none does.
pub open spec fn first_matching_rule(e: Seq<char>, i: int) -> int
    decreases rules().len() - i,
    when 0 <= i
{
    if i >= rules().len() {
        -1
    } else if spec_contains(e, rules()[i].0) {
        i
    } else {
        first_matching_rule(e, i + 1)
    }
}

/// The Chinese message for an error: the message of the first identifier
/// that occurs in it (keeping a trailing `: detail` suffix, trimmed, when
/// the error carries one); failing that, `Failed to` is rewritten; failing
/// that, the error stands as it is.
pub open spec fn chinese_message_spec(e: Seq<char>) -> Seq<char> {
    let i = first_matching_rule(e, 0);
    if i >= 0 {
        let key = rules()[i].0;
        let val = rules()[i].1;
        if e.len() > key.len() {
            let extra = trim_spec(replace_all_spec(e, key, Seq::<char>::empty()));
            if extra.len() > 0 && extra[0] == ':' {
                val + extra
            } else {
                val
            }
        } else {
            val
        }
    } else if spec_starts_with(e, "Failed to"@) {
        replace_all_spec(e, "Failed to"@, "操作失败："@)
    } else {
        e
    }
}

fn rule_at(i: usize) -> (r: (&'static str, &'static str))
    requires
        i < 22,
    ensures
        rules()[i as int] == (r.0@, r.1@),
        r.0@.len() > 0,
{
    if i == 0 {
        proof {
            reveal_strlit("Agent CLI not found");
        }
        ("Agent CLI not found", "未找到 Agent CLI。请确保已安装或允许自动下载 Node.js。")
    } else if i == 1 {
        proof {
            reveal_strlit("No system Node.js installation found");
        }
        ("No system Node.js installation found", "未找到系统 Node.js 安装。系统将尝试下载内置版本。")
    } else if i == 2 {
        proof {
            reveal_strlit("Node.js runtime not available");
        }
        ("Node.js runtime not available", "Node.js 运行时不可用。请安装 Node.js 或允许自动下载。")
    } else if i == 3 {
        proof {
            reveal_strlit("Failed to download Node.js");
        }
        ("Failed to download Node.js", "下载 Node.js 失败。请检查网络连接并重试。")
    } else if i == 4 {
        proof {
            reveal_strlit("Failed to ensure Node.js runtime");
        }
        ("Failed to ensure Node.js runtime", "无法确保 Node.js 运行时可用。请手动安装 Node.js。")
    } else if i == 5 {
        proof {
            reveal_strlit("Failed to find acli binary");
        }
        ("Failed to find acli binary", "未找到 Agent CLI 可执行文件。请确保 Agent CLI 已正确安装。")
    } else if i == 6 {
        proof {
            reveal_strlit("Failed to spawn Agent CLI");
        }
        ("Failed to spawn Agent CLI", "启动 Agent CLI 失败。请检查安装并重试。")
    } else if i == 7 {
        proof {
            reveal_strlit("Failed to execute acli command");
        }
        ("Failed to execute acli command", "执行 acli 命令失败。请检查 Agent CLI 是否正常工作。")
    } else if i == 8 {
        proof {
            reveal_strlit("Failed to add MCP server");
        }
        ("Failed to add MCP server", "添加 MCP 服务器失败。请检查配置并重试。")
    } else if i == 9 {
        proof {
            reveal_strlit("Failed to list MCP servers");
        }
        ("Failed to list MCP servers", "列出 MCP 服务器失败。请检查配置文件。")
    } else if i == 10 {
        proof {
            reveal_strlit("Failed to start MCP server");
        }
        ("Failed to start MCP server", "启动 MCP 服务器失败。请确保服务器已正确安装。")
    } else if i == 11 {
        proof {
            reveal_strlit("Failed to read file");
        }
        ("Failed to read file", "读取文件失败。请检查文件权限。")
    } else if i == 12 {
        proof {
            reveal_strlit("Failed to write file");
        }
        ("Failed to write file", "写入文件失败。请检查目录权限。")
    } else if i == 13 {
        proof {
            reveal_strlit("Failed to create directory");
        }
        ("Failed to create directory", "创建目录失败。请检查权限设置。")
    } else if i == 14 {
        proof {
            reveal_strlit("Failed to get home directory");
        }
        ("Failed to get home directory", "获取用户主目录失败。")
    } else if i == 15 {
        proof {
            reveal_strlit("Failed to open database");
        }
        ("Failed to open database", "打开数据库失败。请检查应用数据目录。")
    } else if i == 16 {
        proof {
            reveal_strlit("Failed to update row");
        }
        ("Failed to update row", "更新数据失败。请重试操作。")
    } else if i == 17 {
        proof {
            reveal_strlit("Failed to insert row");
        }
        ("Failed to insert row", "插入数据失败。请检查数据格式。")
    } else if i == 18 {
        proof {
            reveal_strlit("Failed to kill process");
        }
        ("Failed to kill process", "终止进程失败。进程可能已经结束。")
    } else if i == 19 {
        proof {
            reveal_strlit("Failed to register process");
        }
        ("Failed to register process", "注册进程失败。请重启应用。")
    } else if i == 20 {
        proof {
            reveal_strlit("Failed to fetch");
        }
        ("Failed to fetch", "网络请求失败。请检查网络连接。")
    } else {
        proof {
            reveal_strlit("Failed to download");
        }
        ("Failed to download", "下载失败。请检查网络连接并重试。")
    }
}

/// Maps an error to its Chinese message.
pub fn get_chinese_error_message(error: &str) -> (r: String)
    ensures
        r@ == chinese_message_spec(error@),
{
    let mut i: usize = 0;
    while i < 22
        invariant
            i <= 22,
            first_matching_rule(error@, 0) == first_matching_rule(error@, i as int),
        decreases 22 - i,
    {
        let (key, val) = rule_at(i);
        if strutil::contains_sub(error, key) {
            assert(first_matching_rule(error@, i as int) == i);
            if error.unicode_len() > key.unicode_len() {
                let removed = strutil::replace_all(error, key, "");
                proof {
                    reveal_strlit("");
                    assert(""@ =~= Seq::<char>::empty());
                }
                let extra = strutil::trim_str(removed.as_str());
                if extra.unicode_len() > 0 {
                    let c = extra.get_char(0);
                    if c == ':' {
                        return strutil::concat2(val, extra);
                    }
                }
            }
            return val.to_owned();
        }
        i += 1;
    }
    assert(first_matching_rule(error@, 22) == -1);
    proof {
        reveal_strlit("Failed to");
    }
    if strutil::starts_with_str(error, "Failed to") {
        strutil::replace_all(error, "Failed to", "操作失败：")
    } else {
        error.to_owned()
    }
}

/// The remediation suggestion attached to an error, chosen by what the
/// error speaks of; errors outside the known kinds get none.
pub open spec fn suggestion_spec(e: Seq<char>) -> Option<Seq<char>> {
    if spec_contains(e, "Node.js"@) {
        Some(
            "\n\n💡 解决建议：\n1. 通过 Homebrew 安装 Node.js: brew install node\n2. 或访问 https://nodejs.org 下载安装\n3. 或允许应用自动下载内置版本"@,
        )
    } else if spec_contains(e, "Agent CLI not found"@) {
        Some("\n\n💡 解决建议：\n1. 运行: npm install -g acli\n2. 或使用应用内的安装向导"@)
    } else if spec_contains(e, "permission"@) || spec_contains(e, "权限"@) {
        Some("\n\n💡 解决建议：\n请检查文件或目录的访问权限"@)
    } else if spec_contains(e, "network"@) || spec_contains(e, "网络"@) || spec_contains(
        e,
        "download"@,
    ) {
        Some("\n\n💡 解决建议：\n1. 检查网络连接\n2. 检查代理设置\n3. 稍后重试"@)
    } else {
        None
    }
}

/// The full user-facing rendering of an error: its Chinese message, with
/// the suggestion for its kind appended when there is one.
pub open spec fn format_error_spec(e: Seq<char>) -> Seq<char> {
    match suggestion_spec(e) {
        Some(s) => chinese_message_spec(e) + s,
        None => chinese_message_spec(e),
    }
}

/// Formats an error for the user: Chinese message plus remediation
/// suggestion.
pub fn format_error_with_suggestion(error: &str) -> (r: String)
    ensures
        r@ == format_error_spec(error@),
{
    let chinese = get_chinese_error_message(error);
    if strutil::contains_sub(error, "Node.js") {
        strutil::concat2(
            chinese.as_str(),
            "\n\n💡 解决建议：\n1. 通过 Homebrew 安装 Node.js: brew install node\n2. 或访问 https://nodejs.org 下载安装\n3. 或允许应用自动下载内置版本",
        )
    } else if strutil::contains_sub(error, "Agent CLI not found") {
        strutil::concat2(
            chinese.as_str(),
            "\n\n💡 解决建议：\n1. 运行: npm install -g acli\n2. 或使用应用内的安装向导",
        )
    } else if strutil::contains_sub(error, "permission") || strutil::contains_sub(error, "权限") {
        strutil::concat2(chinese.as_str(), "\n\n💡 解决建议：\n请检查文件或目录的访问权限")
    } else if strutil::contains_sub(error, "network") || strutil::contains_sub(error, "网络")
        || strutil::contains_sub(error, "download") {
        strutil::concat2(chinese.as_str(), "\n\n💡 解决建议：\n1. 检查网络连接\n2. 检查代理设置\n3. 稍后重试")
    } else {
        chinese
    }
}

/// The Chinese message for a completed action: the fixed phrase for the
/// known actions, and `<action> 成功` for any other.
pub open spec fn success_message_spec(a: Seq<char>) -> Seq<char> {
    if a == "install"@ {
        "安装成功"@
    } else if a == "download"@ {
        "下载完成"@
    } else if a == "start"@ {
        "启动成功"@
    } else if a == "stop"@ {
        "停止成功"@
    } else if a == "save"@ {
        "保存成功"@
    } else if a == "delete"@ {
        "删除成功"@
    } else if a == "update"@ {
        "更新成功"@
    } else if a == "create"@ {
        "创建成功"@
    } else if a == "connect"@ {
        "连接成功"@
    } else if a == "import"@ {
        "导入成功"@
    } else if a == "export"@ {
        "导出成功"@
    } else {
        a + " 成功"@
    }
}

/// Maps a completed action to its Chinese message.
pub fn get_success_message(action: &str) -> (r: String)
    ensures
        r@ == success_message_spec(action@),
{
    if strutil::str_eq(action, "install") {
        String::from_str("安装成功")
    } else if strutil::str_eq(action, "download") {
        String::from_str("下载完成")
    } else if strutil::str_eq(action, "start") {
        String::from_str("启动成功")
    } else if strutil::str_eq(action, "stop") {
        String::from_str("停止成功")
    } else if strutil::str_eq(action, "save") {
        String::from_str("保存成功")
    } else if strutil::str_eq(action, "delete") {
        String::from_str("删除成功")
    } else if strutil::str_eq(action, "update") {
        String::from_str("更新成功")
    } else if strutil::str_eq(action, "create") {
        String::from_str("创建成功")
    } else if strutil::str_eq(action, "connect") {
        String::from_str("连接成功")
    } else if strutil::str_eq(action, "import") {
        String::from_str("导入成功")
    } else if strutil::str_eq(action, "export") {
        String::from_str("导出成功")
    } else {
        strutil::concat2(action, " 成功")
    }
}

} // verus!
