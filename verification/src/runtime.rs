//! The fixed text that surrounds every generated program: a header comment,
//! the runtime support that the statements of the program may call, and the
//! entry point that runs them.

use vstd::prelude::*;
use vstd::string::StringSliceAdditionalSpecFns;

verus! {

/// Opens the header comment; the tool version follows.
pub const HEADER_OPEN: &'static str = r#"/*
 * NymyaLang to C++ generated code (version "#;

/// Stands between the tool version and the name of the source file.
pub const HEADER_SOURCE: &'static str = r#")
 * Auto-generated from "#;

/// Closes the header comment.
pub const HEADER_CLOSE: &'static str = r#"
 */

"#;

/// The headers that the runtime support and the generated statements need.
pub const RUNTIME_INCLUDES: &'static str = r#"#include <iostream>
#include <string>
#include <vector>
#include <cmath>
#include <fstream>

"#;

/// The namespace `math`: floating-point helpers, an integer power by
/// squaring, and the greatest common divisor by Euclid's algorithm.
pub const MATH_SUPPORT: &'static str = r#"// Math utilities
namespace math {
    double sqrt(double x) { return std::sqrt(x); }
    double abs(double x) { return x < 0 ? -x : x; }
    double min(double a, double b) { return a < b ? a : b; }
    double max(double a, double b) { return a > b ? a : b; }
    double pow(double base, double exp) { return std::pow(base, exp); }
    double sin(double x) { return std::sin(x); }
    double cos(double x) { return std::cos(x); }
    double tan(double x) { return std::tan(x); }

    const double PI = 3.141592653589793;

    // Integer math functions
    long long pow_int(long long base, long long exp) {
        if (exp <= 0) return 1;
        long long result = 1;
        long long b = base;
        long long e = exp;
        while (e > 0) {
            if (e % 2 == 1) result *= b;
            b *= b;
            e /= 2;
        }
        return result;
    }

    long long gcd(long long a, long long b) {
        a = a < 0 ? -a : a;
        b = b < 0 ? -b : b;
        while (b != 0) {
            long long temp = b;
            b = a % b;
            a = temp;
        }
        return a;
    }
}

"#;

/// The namespace `crystal`: console output, and file access in `crystal::file`.
pub const CRYSTAL_SUPPORT: &'static str = r#"// Crystal utilities (console output and file operations)
namespace crystal {
    void manifest(const std::string& msg) {
        std::cout << msg << std::endl;
    }

    void print(const std::string& msg) {
        std::cout << msg;
    }

    // File operations namespace (Taygetan-inspired names)
    namespace file {
        // dalan_orin = home food (nourish home with content)
        bool dalan_orin(const std::string& path, const std::string& content) {
            std::ofstream file(path);
            if (file.is_open()) {
                file << content;
                file.close();
                return true;
            }
            return false;
        }

        // dalan_aya = home see (check if home exists)
        bool dalan_aya(const std::string& path) {
            std::ifstream file(path);
            bool exists = file.good();
            if (exists) {
                file.close();
            }
            return exists;
        }

        // dalan_karma = home work (read content from home)
        std::string dalan_karma(const std::string& path) {
            std::ifstream file(path);
            if (file.is_open()) {
                std::string content;
                std::string line;
                while (std::getline(file, line)) {
                    content += line + "\\n";
                }
                file.close();
                return content;
            }
            return "";
        }

        // dalan_lora = home exist (create output stream)
        std::ofstream dalan_lora(const std::string& path) {
            return std::ofstream(path);
        }

        // dalan_shira = home love (create input stream)
        std::ifstream dalan_shira(const std::string& path) {
            return std::ifstream(path);
        }
    }
}

"#;

/// The namespace `symbolic`: a table of number meanings.
pub const SYMBOLIC_SUPPORT: &'static str = r#"// Symbolic mathematics namespace
namespace symbolic {
    namespace numerology {
        struct Meaning {
            std::string meaning;
            std::vector<std::string> traits;
        };

        Meaning get_meaning(long long number) {
            Meaning result;
            result.meaning = "Meaning for number " + std::to_string(number);
            result.traits = {"trait1", "trait2", "trait3"};
            return result;
        }
    }
}

"#;

/// Opens the entry point and its guarded region; the tool version follows.
pub const ENTRY_OPEN: &'static str = r#"int main() {
    try {
        // Runtime initialization message (optional)
        // crystal::manifest("NymyaLang runtime "#;

/// Stands between the tool version and the name of the source file.
pub const ENTRY_SOURCE: &'static str = r#" initialized");
        // crystal::manifest("Compiled from: "#;

/// Stands before the statements of the program.
pub const ENTRY_BODY: &'static str = r#"");

        // Actual program execution
"#;

/// Closes the guarded region: an uncaught failure is reported and the
/// program ends with status 1.
pub const ENTRY_CLOSE: &'static str = r#"

        // Program completion message
        // crystal::manifest("Program execution completed");
    } catch (const std::exception& e) {
        std::cerr << "Runtime error: " << e.what() << std::endl;
        return 1;
    }
    return 0;
}
"#;

/// Which namespaces of the runtime support a generated program holds.
#[derive(Clone, Copy, Debug, PartialEq, Eq, Structural)]
pub struct Support {
    pub math: bool,
    pub crystal: bool,
    pub symbolic: bool,
}

impl Support {
    /// Every namespace.
    pub open spec fn all() -> Support {
        Support { math: true, crystal: true, symbolic: true }
    }

    /// Every namespace.
    pub fn full() -> (support: Support)
        ensures
            support == Support::all(),
    {
        Support { math: true, crystal: true, symbolic: true }
    }
}

/// The text of a namespace where it is wanted, and nothing where it is not.
pub open spec fn optional_text(wanted: bool, text: Seq<u8>) -> Seq<u8> {
    if wanted {
        text
    } else {
        Seq::empty()
    }
}

/// The runtime support: the headers, and then the wanted namespaces in the
/// order `math`, `crystal`, `symbolic`.
pub open spec fn support_text(support: Support) -> Seq<u8> {
    RUNTIME_INCLUDES.spec_bytes() + optional_text(support.math, MATH_SUPPORT.spec_bytes())
        + optional_text(support.crystal, CRYSTAL_SUPPORT.spec_bytes()) + optional_text(
        support.symbolic,
        SYMBOLIC_SUPPORT.spec_bytes(),
    )
}

/// The generated program around the rendered statements `body`: the header
/// comment that names the tool version and the source file, the runtime
/// support, and the entry point with `body` in its guarded region.
pub open spec fn program_text(
    body: Seq<u8>,
    source_name: Seq<u8>,
    tool_version: Seq<u8>,
    support: Support,
) -> Seq<u8> {
    HEADER_OPEN.spec_bytes() + tool_version + HEADER_SOURCE.spec_bytes() + source_name
        + HEADER_CLOSE.spec_bytes() + support_text(support) + ENTRY_OPEN.spec_bytes()
        + tool_version + ENTRY_SOURCE.spec_bytes() + source_name + ENTRY_BODY.spec_bytes() + body
        + ENTRY_CLOSE.spec_bytes()
}

/// Renders the runtime support.
pub fn render_support(support: Support) -> (out: Vec<u8>)
    ensures
        out@ == support_text(support),
{
    let mut out: Vec<u8> = Vec::new();
    out.extend_from_slice(RUNTIME_INCLUDES.as_bytes());
    if support.math {
        out.extend_from_slice(MATH_SUPPORT.as_bytes());
    }
    if support.crystal {
        out.extend_from_slice(CRYSTAL_SUPPORT.as_bytes());
    }
    if support.symbolic {
        out.extend_from_slice(SYMBOLIC_SUPPORT.as_bytes());
    }
    out
}

/// Wraps the rendered statements in the header, the runtime support and the entry point.
pub fn wrap_program(body: &[u8], source_name: &[u8], tool_version: &[u8], support: Support) -> (out:
    Vec<u8>)
    ensures
        out@ == program_text(body@, source_name@, tool_version@, support),
{
    let mut out: Vec<u8> = Vec::new();
    out.extend_from_slice(HEADER_OPEN.as_bytes());
    out.extend_from_slice(tool_version);
    out.extend_from_slice(HEADER_SOURCE.as_bytes());
    out.extend_from_slice(source_name);
    out.extend_from_slice(HEADER_CLOSE.as_bytes());
    let runtime = render_support(support);
    out.extend_from_slice(runtime.as_slice());
    out.extend_from_slice(ENTRY_OPEN.as_bytes());
    out.extend_from_slice(tool_version);
    out.extend_from_slice(ENTRY_SOURCE.as_bytes());
    out.extend_from_slice(source_name);
    out.extend_from_slice(ENTRY_BODY.as_bytes());
    out.extend_from_slice(body);
    out.extend_from_slice(ENTRY_CLOSE.as_bytes());
    out
}

} // verus!
