use vstd::prelude::*;

verus! {

/// The launcher's localized error messages.
pub struct I18n {
    pub error_self_path: &'static str,
    pub error_invalid_hmcl_java_home: &'static str,
    pub error_java_not_found: &'static str,
}

/// The language identifier of Simplified Chinese (China).
pub const LANGUAGE_ZH_CN: u16 = 2052;

/// The Simplified Chinese messages.
pub open spec fn chinese_messages() -> (Seq<char>, Seq<char>, Seq<char>) {
    (
        "获取程序路径失败。"@,
        "HMCL_JAVA_HOME 所指向的 Java 路径无效，请更新或删除该变量。\n"@,
        "HMCL 需要 Java 17 或更高版本才能运行，点击“确定”开始下载 Java。\n请在安装 Java 完成后重新启动 HMCL。"@,
    )
}

/// The English messages.
pub open spec fn english_messages() -> (Seq<char>, Seq<char>, Seq<char>) {
    (
        "Failed to get the exe path."@,
        "The Java path specified by HMCL_JAVA_HOME is invalid. Please update it to a valid Java installation path or remove this environment variable."@,
        "HMCL requires Java 17 or later to run,\nClick 'OK' to start downloading java.\nPlease restart HMCL after installing Java."@,
    )
}

impl I18n {
    /// The three messages as character sequences.
    pub open spec fn messages(&self) -> (Seq<char>, Seq<char>, Seq<char>) {
        (self.error_self_path@, self.error_invalid_hmcl_java_home@, self.error_java_not_found@)
    }

    /// The messages for a user interface language: Simplified Chinese for
    /// `LANGUAGE_ZH_CN`, English otherwise.
    pub fn for_language(language: u16) -> (r: I18n)
        ensures
            r.messages() == (if language == LANGUAGE_ZH_CN {
                chinese_messages()
            } else {
                english_messages()
            }),
    {
        if language == LANGUAGE_ZH_CN {
            I18n {
                error_self_path: "获取程序路径失败。",
                error_invalid_hmcl_java_home: "HMCL_JAVA_HOME 所指向的 Java 路径无效，请更新或删除该变量。\n",
                error_java_not_found: "HMCL 需要 Java 17 或更高版本才能运行，点击“确定”开始下载 Java。\n请在安装 Java 完成后重新启动 HMCL。",
            }
        } else {
            I18n {
                error_self_path: "Failed to get the exe path.",
                error_invalid_hmcl_java_home: "The Java path specified by HMCL_JAVA_HOME is invalid. Please update it to a valid Java installation path or remove this environment variable.",
                error_java_not_found: "HMCL requires Java 17 or later to run,\nClick 'OK' to start downloading java.\nPlease restart HMCL after installing Java.",
            }
        }
    }
}

} // verus!
